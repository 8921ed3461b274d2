use bevy::ecs::entity::{Entity, EntityHashSet};
use bevy_suis::entity::EntityId;
use bevy_suis::handler_actions::DeltaEntitySet;

fn id(index: u32) -> EntityId {
    EntityId::from_bits(Entity::from_raw(index).to_bits()).unwrap()
}

fn set_of(indices: &[u32]) -> EntityHashSet {
    let mut set = EntityHashSet::new();
    for index in indices {
        set.insert(Entity::from_raw(*index));
    }
    set
}

#[test]
fn delta_is_empty_when_new() {
    let delta = DeltaEntitySet::new();
    assert!(delta.added().is_empty());
    assert!(delta.current().is_empty());
    assert!(delta.removed().is_empty());
    let delta = DeltaEntitySet::default();
    assert!(delta.added().is_empty());
    assert!(delta.current().is_empty());
    assert!(delta.removed().is_empty());
}

#[test]
fn delta_reports_the_edges_of_a_sequence() {
    let mut delta = DeltaEntitySet::new();

    delta.update(&vec![]);
    assert_eq!(delta.added(), &set_of(&[]));
    assert_eq!(delta.current(), &set_of(&[]));
    assert_eq!(delta.removed(), &set_of(&[]));

    delta.update(&vec![id(1)]);
    assert_eq!(delta.added(), &set_of(&[1]));
    assert_eq!(delta.current(), &set_of(&[1]));
    assert_eq!(delta.removed(), &set_of(&[]));

    delta.update(&vec![id(1), id(2)]);
    assert_eq!(delta.added(), &set_of(&[2]));
    assert_eq!(delta.current(), &set_of(&[1, 2]));
    assert_eq!(delta.removed(), &set_of(&[]));

    delta.update(&vec![id(2)]);
    assert_eq!(delta.added(), &set_of(&[]));
    assert_eq!(delta.current(), &set_of(&[2]));
    assert_eq!(delta.removed(), &set_of(&[1]));

    delta.update(&vec![]);
    assert_eq!(delta.added(), &set_of(&[]));
    assert_eq!(delta.current(), &set_of(&[]));
    assert_eq!(delta.removed(), &set_of(&[2]));
}

#[test]
fn delta_counts_a_repeated_entity_once() {
    let mut delta = DeltaEntitySet::new();
    delta.update(&vec![id(4), id(4), id(5), id(4)]);
    assert_eq!(delta.added(), &set_of(&[4, 5]));
    assert_eq!(delta.current(), &set_of(&[4, 5]));
    assert_eq!(delta.current().len(), 2);
}

#[test]
fn delta_swaps_one_entity_for_another() {
    let mut delta = DeltaEntitySet::new();
    delta.update(&vec![id(1), id(2), id(3)]);
    delta.update(&vec![id(3), id(4)]);
    assert_eq!(delta.added(), &set_of(&[4]));
    assert_eq!(delta.current(), &set_of(&[3, 4]));
    assert_eq!(delta.removed(), &set_of(&[1, 2]));
}

#[test]
fn delta_keeps_no_history_beyond_one_step() {
    let mut delta = DeltaEntitySet::new();
    delta.update(&vec![id(1)]);
    delta.update(&vec![]);
    delta.update(&vec![]);
    assert!(delta.added().is_empty());
    assert!(delta.removed().is_empty());
    delta.update(&vec![id(1)]);
    assert_eq!(delta.added(), &set_of(&[1]));
}

#[test]
fn delta_tells_generations_apart() {
    let first = EntityId::from_bits(0x1_0000_0001).unwrap();
    let second = EntityId::from_bits(0x2_0000_0001).unwrap();
    let mut delta = DeltaEntitySet::new();
    delta.update(&vec![first]);
    delta.update(&vec![second]);
    assert!(delta.added().contains(&Entity::from_bits(0x2_0000_0001)));
    assert!(delta.removed().contains(&Entity::from_bits(0x1_0000_0001)));
    assert_eq!(delta.current().len(), 1);
}

#[test]
fn delta_clone_is_a_set_of_its_own() {
    let mut delta = DeltaEntitySet::new();
    delta.update(&vec![id(1), id(2)]);
    let copy = delta.clone();
    delta.update(&vec![id(3)]);
    assert_eq!(copy.added(), &set_of(&[1, 2]));
    assert_eq!(copy.current(), &set_of(&[1, 2]));
    assert_eq!(copy.removed(), &set_of(&[]));
    assert_eq!(delta.current(), &set_of(&[3]));
    assert_eq!(delta.removed(), &set_of(&[1, 2]));
}
