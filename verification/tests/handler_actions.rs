use bevy::ecs::entity::{Entity, EntityHashSet};
use bevy_suis::entity::EntityId;
use bevy_suis::handler_actions::multi::MultiHandlerAction;
use bevy_suis::handler_actions::simple::SimpleHandlerAction;
use bevy_suis::handler_actions::single::{lowest_member, SingleHandlerAction};
use bevy_suis::handler_actions::events_in;
use bevy_suis::input_handler::{evaluate, FieldRef, InputHandler};
use bevy_suis::input_method_capturing::InputMethodMessage;
use bevy_suis::input_method_data::InputData;

/// What a method reports in these tests: how far it is and how hard it grabs.
#[derive(Clone, Copy, Debug, PartialEq)]
struct Report {
    distance: f32,
    grab: f32,
}

fn id(index: u32) -> EntityId {
    EntityId::from_raw(index)
}

fn set_of(indices: &[u32]) -> EntityHashSet {
    let mut set = EntityHashSet::new();
    for index in indices {
        set.insert(Entity::from_raw(*index));
    }
    set
}

fn event(method: u32, distance: f32, grab: f32, captured: bool) -> InputData<Report> {
    InputData { input_method: id(method), data: Report { distance, grab }, captured }
}

fn handler_with(events: Vec<InputData<Report>>) -> InputHandler<Report> {
    let mut handler = InputHandler::new(FieldRef::This);
    handler.set_events(events);
    handler
}

fn methods_of(events: &Vec<InputData<Report>>) -> Vec<EntityId> {
    events.iter().map(|event| event.input_method).collect()
}

fn grabs(event: &InputData<Report>) -> bool {
    event.data.grab > 0.5
}

fn is_near(event: &InputData<Report>) -> bool {
    event.data.distance < 0.1
}

#[test]
fn evaluate_asks_the_condition_of_each_event() {
    let handler = handler_with(vec![
        event(1, 0.0, 1.0, false),
        event(2, 0.0, 0.2, false),
        event(3, 0.0, 0.9, true),
    ]);
    assert_eq!(evaluate(&handler, grabs), vec![true, false, true]);
    assert_eq!(evaluate(&handler, |event| event.captured), vec![false, false, true]);
    assert_eq!(evaluate(&handler_with(vec![]), grabs), Vec::<bool>::new());
}

#[test]
fn events_in_keeps_the_events_of_the_set_in_order() {
    let handler = handler_with(vec![
        event(3, 0.3, 0.0, false),
        event(1, 0.1, 0.0, false),
        event(2, 0.2, 0.0, false),
        event(1, 0.4, 0.0, true),
    ]);
    let found = events_in(&handler, &set_of(&[1, 3]));
    assert_eq!(
        found.iter().map(|event| (event.input_method, event.data.distance)).collect::<Vec<_>>(),
        vec![(id(3), 0.3), (id(1), 0.1), (id(1), 0.4)]
    );
    assert!(events_in(&handler, &set_of(&[])).is_empty());
    assert!(events_in(&handler, &set_of(&[9])).is_empty());
}

#[test]
fn lowest_member_is_the_smallest_identity() {
    assert_eq!(lowest_member(&set_of(&[])), None);
    assert_eq!(lowest_member(&set_of(&[5])), Some(id(5)));
    assert_eq!(lowest_member(&set_of(&[5, 3, 9, 4])), Some(id(3)));
    let mut generations = EntityHashSet::new();
    generations.insert(Entity::from_bits(0x2_0000_0000));
    generations.insert(Entity::from_bits(0x1_0000_0009));
    assert_eq!(lowest_member(&generations), Some(id(9)));
}

#[test]
fn simple_action_asks_for_what_it_newly_wants() {
    let mut action = SimpleHandlerAction::new();
    let mut handler = handler_with(vec![
        event(3, 0.0, 1.0, false),
        event(1, 0.0, 1.0, false),
        event(2, 0.0, 0.0, false),
    ]);
    action.update(&mut handler, grabs);
    assert_eq!(
        handler.take_messages(),
        vec![
            (id(1), InputMethodMessage::RequestCapture),
            (id(3), InputMethodMessage::RequestCapture)
        ]
    );
    assert!(action.actor_set().current().is_empty());
    action.update(&mut handler, grabs);
    assert!(handler.take_messages().is_empty());
}

#[test]
fn simple_action_releases_what_it_wants_no_more() {
    let mut action = SimpleHandlerAction::new();
    let mut handler = handler_with(vec![
        event(1, 0.0, 1.0, false),
        event(2, 0.0, 1.0, false),
        event(3, 0.0, 1.0, false),
    ]);
    action.update(&mut handler, grabs);
    handler.take_messages();
    handler.set_events(vec![event(2, 0.0, 1.0, true), event(3, 0.0, 0.1, true), event(4, 0.0, 1.0, false)]);
    action.update(&mut handler, grabs);
    assert_eq!(
        handler.take_messages(),
        vec![
            (id(4), InputMethodMessage::RequestCapture),
            (id(1), InputMethodMessage::Release),
            (id(3), InputMethodMessage::Release)
        ]
    );
}

#[test]
fn simple_action_acts_with_what_it_wants_and_holds() {
    let mut action = SimpleHandlerAction::new();
    let mut handler = handler_with(vec![event(1, 0.0, 1.0, false), event(2, 0.0, 1.0, false)]);
    action.update(&mut handler, grabs);
    assert!(action.started_acting(&handler).is_empty());

    handler.set_events(vec![event(1, 0.0, 1.0, true), event(2, 0.0, 1.0, false)]);
    action.update(&mut handler, grabs);
    assert_eq!(methods_of(&action.started_acting(&handler)), vec![id(1)]);
    assert_eq!(methods_of(&action.currently_acting(&handler)), vec![id(1)]);
    assert!(action.stopped_acting(&handler).is_empty());
    assert_eq!(action.actor_set().added(), &set_of(&[1]));

    action.update(&mut handler, grabs);
    assert!(action.started_acting(&handler).is_empty());
    assert_eq!(methods_of(&action.currently_acting(&handler)), vec![id(1)]);

    handler.set_events(vec![event(1, 0.0, 0.0, true), event(2, 0.0, 1.0, false)]);
    action.update(&mut handler, grabs);
    assert!(action.currently_acting(&handler).is_empty());
    assert_eq!(methods_of(&action.stopped_acting(&handler)), vec![id(1)]);
    assert_eq!(action.actor_set().removed(), &set_of(&[1]));
}

#[test]
fn simple_action_does_not_act_with_a_held_method_it_does_not_want() {
    let mut action = SimpleHandlerAction::new();
    let mut handler = handler_with(vec![event(1, 0.0, 0.0, true), event(2, 0.0, 1.0, true)]);
    action.update(&mut handler, grabs);
    assert_eq!(action.actor_set().current(), &set_of(&[2]));
    assert_eq!(methods_of(&action.currently_acting(&handler)), vec![id(2)]);
}

#[test]
fn simple_action_takes_marks_in_place_of_a_condition() {
    let mut with_marks = SimpleHandlerAction::new();
    let mut with_condition = SimpleHandlerAction::new();
    let events = vec![event(1, 0.0, 1.0, true), event(2, 0.0, 0.0, true), event(3, 0.0, 1.0, false)];
    let mut first = handler_with(events.clone());
    let mut second = handler_with(events);
    with_marks.update_with(&mut first, &vec![true, false, true]);
    with_condition.update(&mut second, grabs);
    assert_eq!(first.take_messages(), second.take_messages());
    assert_eq!(with_marks.actor_set().current(), with_condition.actor_set().current());
    assert_eq!(with_marks.actor_set().current(), &set_of(&[1]));
}

#[test]
fn simple_action_counts_a_missing_mark_as_no() {
    let mut action = SimpleHandlerAction::new();
    let mut handler = handler_with(vec![event(1, 0.0, 1.0, true), event(2, 0.0, 1.0, true)]);
    action.update_with(&mut handler, &vec![true]);
    assert_eq!(handler.take_messages(), vec![(id(1), InputMethodMessage::RequestCapture)]);
    assert_eq!(action.actor_set().current(), &set_of(&[1]));
}

#[test]
fn multi_action_lets_only_hovering_methods_interact() {
    let mut action = MultiHandlerAction::new();
    let mut handler = handler_with(vec![event(1, 0.05, 1.0, false), event(2, 0.5, 1.0, false)]);

    // Both grab, but only the first is near enough to hover.
    action.update(&mut handler, is_near, grabs);
    assert_eq!(handler.take_messages(), vec![(id(1), InputMethodMessage::RequestCapture)]);
    assert_eq!(action.hover_set().added(), &set_of(&[1]));
    assert_eq!(methods_of(&action.started_hovering(&handler)), vec![id(1)]);
    assert!(action.actor_set().current().is_empty());

    handler.set_events(vec![event(1, 0.05, 1.0, true), event(2, 0.5, 1.0, true)]);
    action.update(&mut handler, is_near, grabs);
    assert!(handler.take_messages().is_empty());
    assert!(action.started_hovering(&handler).is_empty());
    assert_eq!(methods_of(&action.currently_hovering(&handler)), vec![id(1)]);
    assert_eq!(methods_of(&action.started_acting(&handler)), vec![id(1)]);
    assert_eq!(methods_of(&action.currently_acting(&handler)), vec![id(1)]);
    assert_eq!(action.actor_set().current(), &set_of(&[1]));
}

#[test]
fn multi_action_stops_in_the_update_in_which_the_method_hovers_no_more() {
    let mut action = MultiHandlerAction::new();
    let mut handler = handler_with(vec![event(1, 0.05, 1.0, false)]);
    action.update(&mut handler, is_near, grabs);
    handler.take_messages();
    handler.set_events(vec![event(1, 0.05, 1.0, true)]);
    action.update(&mut handler, is_near, grabs);
    assert_eq!(action.actor_set().current(), &set_of(&[1]));

    // The method moves away while it still grabs and is still held.
    handler.set_events(vec![event(1, 0.7, 1.0, true)]);
    action.update(&mut handler, is_near, grabs);
    assert_eq!(handler.take_messages(), vec![(id(1), InputMethodMessage::Release)]);
    assert_eq!(methods_of(&action.stopped_hovering(&handler)), vec![id(1)]);
    assert_eq!(methods_of(&action.stopped_acting(&handler)), vec![id(1)]);
    assert!(action.actor_set().current().is_empty());
    assert!(action.hover_set().current().is_empty());

    action.update(&mut handler, is_near, grabs);
    assert!(handler.take_messages().is_empty());
    assert!(action.stopped_acting(&handler).is_empty());
    assert!(action.stopped_hovering(&handler).is_empty());
}

#[test]
fn multi_action_counts_a_method_as_hovering_if_one_of_its_events_does() {
    let mut action = MultiHandlerAction::new();
    let mut handler = handler_with(vec![event(1, 0.05, 0.0, true), event(1, 0.9, 1.0, true)]);
    action.update(&mut handler, is_near, grabs);
    assert_eq!(action.hover_set().current(), &set_of(&[1]));
    assert_eq!(action.actor_set().current(), &set_of(&[1]));
    assert_eq!(handler.take_messages(), vec![(id(1), InputMethodMessage::RequestCapture)]);
}

#[test]
fn multi_action_takes_marks_in_place_of_conditions() {
    let mut action = MultiHandlerAction::new();
    let mut handler = handler_with(vec![event(1, 0.0, 0.0, true), event(2, 0.0, 0.0, true)]);
    action.update_with(&mut handler, &vec![true, true], &vec![false, true]);
    assert_eq!(handler.take_messages(), vec![(id(2), InputMethodMessage::RequestCapture)]);
    assert_eq!(action.actor_set().current(), &set_of(&[2]));
    action.update_with(&mut handler, &vec![true, false], &vec![true, true]);
    assert_eq!(
        handler.take_messages(),
        vec![
            (id(1), InputMethodMessage::RequestCapture),
            (id(2), InputMethodMessage::Release)
        ]
    );
    assert_eq!(action.hover_set().removed(), &set_of(&[2]));
    assert_eq!(action.actor_set().current(), &set_of(&[1]));
    // A missing mark is no mark.
    action.update_with(&mut handler, &vec![true], &vec![]);
    assert_eq!(action.hover_set().current(), &set_of(&[1]));
    assert!(action.actor_set().current().is_empty());
}

#[test]
fn single_action_adopts_the_lowest_of_two_that_begin_together() {
    let mut action = SingleHandlerAction::new();
    let mut handler = handler_with(vec![event(7, 0.0, 1.0, true), event(4, 0.0, 1.0, true)]);
    action.update(&mut handler, false, is_near, grabs);
    assert!(action.started_acting());
    assert!(!action.actor_changed());
    assert!(!action.stopped_acting());
    assert_eq!(action.actor_entity(), Some(id(4)));
    assert_eq!(action.actor(&handler).map(|event| event.input_method), Some(id(4)));

    // The other one is ignored for as long as the first acts.
    for _ in 0..3 {
        action.update(&mut handler, false, is_near, grabs);
        assert!(!action.started_acting());
        assert!(!action.actor_changed());
        assert!(!action.stopped_acting());
        assert_eq!(action.actor_entity(), Some(id(4)));
    }

    // The first stops: the action has no actor, and the other one began too
    // long ago to take over.
    handler.set_events(vec![event(7, 0.0, 1.0, true), event(4, 0.0, 0.0, true)]);
    action.update(&mut handler, false, is_near, grabs);
    assert!(action.stopped_acting());
    assert!(!action.started_acting());
    assert_eq!(action.actor_entity(), None);
    assert!(action.actor(&handler).is_none());
}

#[test]
fn single_action_ignores_a_later_contender_unless_the_actor_may_change() {
    for allow in [false, true] {
        let mut action = SingleHandlerAction::new();
        let mut handler = handler_with(vec![event(5, 0.0, 1.0, true), event(2, 0.0, 0.0, true)]);
        action.update(&mut handler, allow, is_near, grabs);
        assert!(action.started_acting());
        assert_eq!(action.actor_entity(), Some(id(5)));

        handler.set_events(vec![event(5, 0.0, 1.0, true), event(2, 0.0, 1.0, true)]);
        action.update(&mut handler, allow, is_near, grabs);
        assert!(!action.started_acting());
        assert_eq!(action.actor_changed(), allow);
        assert!(!action.stopped_acting());
        assert_eq!(action.actor_entity(), Some(if allow { id(2) } else { id(5) }));
    }
}

#[test]
fn single_action_stops_when_the_tip_retreats_with_grab_held() {
    let mut action = SingleHandlerAction::new();
    let mut handler = handler_with(vec![event(1, 0.05, 1.0, true)]);
    action.update(&mut handler, false, is_near, grabs);
    assert!(action.started_acting());
    assert_eq!(action.actor_entity(), Some(id(1)));
    handler.take_messages();

    // Past the threshold of the hover condition, still grabbing, still held.
    handler.set_events(vec![event(1, 0.3, 1.0, true)]);
    action.update(&mut handler, false, is_near, grabs);
    assert!(action.stopped_acting());
    assert!(!action.started_acting());
    assert_eq!(action.actor_entity(), None);
    assert_eq!(handler.take_messages(), vec![(id(1), InputMethodMessage::Release)]);
}

#[test]
fn single_action_stops_when_the_grab_is_dropped() {
    let mut action = SingleHandlerAction::new();
    let mut handler = handler_with(vec![event(1, 0.05, 1.0, true)]);
    action.update(&mut handler, false, is_near, grabs);
    assert_eq!(action.actor_entity(), Some(id(1)));
    handler.take_messages();
    handler.set_events(vec![event(1, 0.05, 0.0, true)]);
    action.update(&mut handler, false, is_near, grabs);
    assert!(action.stopped_acting());
    assert_eq!(action.actor_entity(), None);
    assert_eq!(handler.take_messages(), vec![(id(1), InputMethodMessage::Release)]);
    assert_eq!(action.hover_set().current(), &set_of(&[1]));
}

#[test]
fn single_action_flags_last_for_one_update() {
    let mut action = SingleHandlerAction::new();
    let mut handler = handler_with(vec![event(1, 0.0, 1.0, true)]);
    action.update(&mut handler, false, is_near, grabs);
    assert!(action.started_acting());
    action.update(&mut handler, false, is_near, grabs);
    assert!(!action.started_acting());
    handler.set_events(vec![]);
    action.update(&mut handler, false, is_near, grabs);
    assert!(action.stopped_acting());
    action.update(&mut handler, false, is_near, grabs);
    assert!(!action.stopped_acting());
    assert_eq!(action.actor_entity(), None);
}

#[test]
fn single_action_shows_the_first_event_of_its_actor() {
    let mut action = SingleHandlerAction::new();
    let mut handler = handler_with(vec![
        event(2, 0.0, 0.0, false),
        event(1, 0.01, 1.0, true),
        event(1, 0.02, 1.0, true),
    ]);
    action.update(&mut handler, false, is_near, grabs);
    assert_eq!(action.actor_entity(), Some(id(1)));
    assert_eq!(action.actor(&handler).map(|event| event.data.distance), Some(0.01));
    handler.set_events(vec![event(2, 0.0, 0.0, false)]);
    assert!(action.actor(&handler).is_none());
}

#[test]
fn single_action_offers_the_hover_views() {
    let mut action = SingleHandlerAction::new();
    let mut handler = handler_with(vec![event(1, 0.05, 0.0, false), event(2, 0.9, 0.0, false)]);
    action.update(&mut handler, false, is_near, grabs);
    assert_eq!(action.hover_set().current(), &set_of(&[1]));
    assert_eq!(methods_of(&action.started_hovering(&handler)), vec![id(1)]);
    assert_eq!(methods_of(&action.currently_hovering(&handler)), vec![id(1)]);
    handler.set_events(vec![event(1, 0.9, 0.0, false), event(2, 0.05, 0.0, false)]);
    action.update(&mut handler, false, is_near, grabs);
    assert_eq!(methods_of(&action.started_hovering(&handler)), vec![id(2)]);
    assert_eq!(methods_of(&action.currently_hovering(&handler)), vec![id(2)]);
    assert_eq!(methods_of(&action.stopped_hovering(&handler)), vec![id(1)]);
}

#[test]
fn single_action_takes_marks_in_place_of_conditions() {
    let mut action = SingleHandlerAction::new();
    let mut handler = handler_with(vec![event(3, 0.0, 0.0, true), event(1, 0.0, 0.0, true)]);
    action.update_with(&mut handler, false, &vec![true, true], &vec![false, false]);
    assert!(!action.started_acting());
    assert!(handler.take_messages().is_empty());
    action.update_with(&mut handler, false, &vec![true, true], &vec![true, true]);
    assert!(action.started_acting());
    assert_eq!(action.actor_entity(), Some(id(1)));
    assert_eq!(
        handler.take_messages(),
        vec![
            (id(1), InputMethodMessage::RequestCapture),
            (id(3), InputMethodMessage::RequestCapture)
        ]
    );
}

#[test]
fn new_actions_have_no_actors() {
    assert!(SimpleHandlerAction::default().actor_set().current().is_empty());
    assert!(MultiHandlerAction::default().actor_set().current().is_empty());
    assert!(MultiHandlerAction::default().hover_set().current().is_empty());
    let single = SingleHandlerAction::default();
    assert_eq!(single.actor_entity(), None);
    assert!(!single.started_acting() && !single.actor_changed() && !single.stopped_acting());
    assert!(single.hover_set().current().is_empty());
}
