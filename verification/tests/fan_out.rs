use bevy_suis::entity::EntityId;
use bevy_suis::input_handler::{FieldRef, InputHandler};
use bevy_suis::input_method::InputMethod;
use bevy_suis::input_method_capturing::{
    send_input_data, HandlerEntry, InputMethodCaptureRequests, MethodEntry,
};
use bevy_suis::input_method_data::InputData;

fn id(index: u32) -> EntityId {
    EntityId::from_raw(index)
}

fn handler(index: u32) -> HandlerEntry<f32> {
    HandlerEntry { id: id(index), handler: InputHandler::new(FieldRef::This) }
}

fn method(index: u32, owner: Option<u32>) -> MethodEntry {
    let mut method = InputMethod::new();
    if let Some(owner) = owner {
        method.set_captured(id(owner));
    }
    MethodEntry { id: id(index), method, requests: InputMethodCaptureRequests::new(), active: true }
}

fn seen(handler: &HandlerEntry<f32>) -> Vec<(EntityId, f32, bool)> {
    handler
        .handler
        .input_events()
        .iter()
        .map(|event| (event.input_method, event.data, event.captured))
        .collect()
}

#[test]
fn a_free_method_is_sent_to_every_handler() {
    let methods = vec![method(1, None)];
    let mut handlers = vec![handler(10), handler(11), handler(12)];
    send_input_data(&methods, &mut handlers, &vec![vec![Some(0.5), Some(1.5), Some(2.5)]]);
    assert_eq!(seen(&handlers[0]), vec![(id(1), 0.5, false)]);
    assert_eq!(seen(&handlers[1]), vec![(id(1), 1.5, false)]);
    assert_eq!(seen(&handlers[2]), vec![(id(1), 2.5, false)]);
}

#[test]
fn a_held_method_is_sent_to_its_owner_alone() {
    let methods = vec![method(1, Some(11))];
    let mut handlers = vec![handler(10), handler(11), handler(12)];
    send_input_data(&methods, &mut handlers, &vec![vec![Some(0.5), Some(1.5), Some(2.5)]]);
    assert_eq!(seen(&handlers[0]), vec![]);
    assert_eq!(seen(&handlers[1]), vec![(id(1), 1.5, true)]);
    assert_eq!(seen(&handlers[2]), vec![]);
}

#[test]
fn events_come_in_the_order_of_the_methods() {
    let methods = vec![method(3, None), method(1, Some(10)), method(2, None), method(4, Some(11))];
    let mut handlers = vec![handler(10), handler(11)];
    let data = vec![
        vec![Some(3.0), Some(3.5)],
        vec![Some(1.0), Some(1.5)],
        vec![Some(2.0), Some(2.5)],
        vec![Some(4.0), Some(4.5)],
    ];
    send_input_data(&methods, &mut handlers, &data);
    assert_eq!(
        seen(&handlers[0]),
        vec![(id(3), 3.0, false), (id(1), 1.0, true), (id(2), 2.0, false)]
    );
    assert_eq!(
        seen(&handlers[1]),
        vec![(id(3), 3.5, false), (id(2), 2.5, false), (id(4), 4.5, true)]
    );
}

#[test]
fn events_are_rebuilt_in_every_tick() {
    let methods = vec![method(1, None)];
    let mut handlers = vec![handler(10)];
    handlers[0].handler.set_events(vec![
        InputData { input_method: id(7), data: 9.0, captured: true },
        InputData { input_method: id(8), data: 9.0, captured: true },
    ]);
    send_input_data(&methods, &mut handlers, &vec![vec![Some(0.25)]]);
    assert_eq!(seen(&handlers[0]), vec![(id(1), 0.25, false)]);
    send_input_data(&Vec::new(), &mut handlers, &Vec::new());
    assert_eq!(seen(&handlers[0]), vec![]);
}

#[test]
fn an_inactive_method_is_sent_to_nobody() {
    let mut methods = vec![method(1, None), method(2, Some(10))];
    methods[0].active = false;
    methods[1].active = false;
    let mut handlers = vec![handler(10), handler(11)];
    let data = vec![vec![Some(1.0), Some(1.0)], vec![Some(2.0), Some(2.0)]];
    send_input_data(&methods, &mut handlers, &data);
    assert_eq!(seen(&handlers[0]), vec![]);
    assert_eq!(seen(&handlers[1]), vec![]);
}

#[test]
fn a_handler_without_data_of_a_method_gets_no_event_of_it() {
    let methods = vec![method(1, None), method(2, Some(11)), method(3, None)];
    let mut handlers = vec![handler(10), handler(11)];
    // The second row lacks the owner's cell, the third row is missing.
    let data = vec![vec![None, Some(1.5)], vec![Some(2.0)]];
    send_input_data(&methods, &mut handlers, &data);
    assert_eq!(seen(&handlers[0]), vec![]);
    assert_eq!(seen(&handlers[1]), vec![(id(1), 1.5, false)]);
}

#[test]
fn a_method_held_by_a_handler_that_is_gone_is_sent_to_nobody() {
    let methods = vec![method(1, Some(99))];
    let mut handlers = vec![handler(10), handler(11)];
    send_input_data(&methods, &mut handlers, &vec![vec![Some(1.0), Some(2.0)]]);
    assert_eq!(seen(&handlers[0]), vec![]);
    assert_eq!(seen(&handlers[1]), vec![]);
}

#[test]
fn fan_out_keeps_queue_and_field_of_the_handlers() {
    let methods = vec![method(1, None)];
    let mut handlers = vec![handler(10)];
    handlers[0].handler.request_capture(id(1));
    handlers[0].handler.set_field_ref(FieldRef::Entity(id(40)));
    send_input_data(&methods, &mut handlers, &vec![vec![Some(1.0)]]);
    assert_eq!(handlers[0].handler.get_field_ref(), FieldRef::Entity(id(40)));
    assert_eq!(handlers[0].handler.take_messages().len(), 1);
    assert_eq!(handlers[0].id, id(10));
}

#[test]
fn field_ref_resolves_to_the_entity_of_the_field() {
    assert_eq!(FieldRef::This.resolve(id(10)), id(10));
    assert_eq!(FieldRef::Entity(id(20)).resolve(id(10)), id(20));
}
