//! Entity identities, and the entity hash set of the ECS that the library
//! keeps them in.

use bevy::ecs::entity::{Entity, EntityHashSet};
use vstd::prelude::*;

verus! {

/// Whether 64 bits are those of an entity: the upper half, its generation,
/// lies between 1 and `0x7FFF_FFFF`.
pub open spec fn valid_entity_bits(bits: u64) -> bool {
    0x1_0000_0000 <= bits <= 0x7FFF_FFFF_FFFF_FFFF
}

/// Identity of an input method or of an input handler: the bits of its
/// entity. Every value holds valid bits.
#[derive(Clone, Copy, Debug, PartialEq, Eq, Structural, Hash)]
pub struct EntityId {
    bits: u64,
}

impl View for EntityId {
    type V = u64;

    closed spec fn view(&self) -> u64 {
        self.bits
    }
}

impl EntityId {
    #[verifier::type_invariant]
    pub open spec fn well_formed(self) -> bool {
        valid_entity_bits(self@)
    }

    /// The identity with these bits, where they are those of an entity.
    pub fn from_bits(bits: u64) -> (id: Option<EntityId>)
        ensures
            id is Some <==> valid_entity_bits(bits),
            id is Some ==> id->0@ == bits,
    {
        if 0x1_0000_0000 <= bits && bits <= 0x7FFF_FFFF_FFFF_FFFF {
            Some(EntityId { bits })
        } else {
            None
        }
    }

    /// The identity of the entity with this index in its first generation.
    pub fn from_raw(index: u32) -> (id: EntityId)
        ensures
            id@ == 0x1_0000_0000 + index,
    {
        let low: u64 = index.into();
        EntityId { bits: 0x1_0000_0000u64 + low }
    }

    pub fn to_bits(self) -> (bits: u64)
        ensures
            bits == self@,
            valid_entity_bits(bits),
    {
        proof {
            use_type_invariant(&self);
        }
        self.bits
    }
}

/// Two identities are the same exactly if their bits are.
pub proof fn lemma_entity_id_by_bits(a: EntityId, b: EntityId)
    ensures
        (a == b) <==> (a@ == b@),
{
}

/// The identities that a sequence names, each by its bits.
pub open spec fn ids_of(entities: Seq<EntityId>) -> Set<u64> {
    Set::new(
        |bits: u64| exists|i: int| 0 <= i < entities.len() && (#[trigger] entities[i])@ == bits,
    )
}

/// A sequence with one more entity names one more identity.
pub proof fn lemma_ids_of_push(entities: Seq<EntityId>, entity: EntityId)
    ensures
        ids_of(entities.push(entity)) == ids_of(entities).insert(entity@),
{
    let longer = entities.push(entity);
    assert forall|bits: u64| ids_of(entities).insert(entity@).contains(bits) implies ids_of(
        longer,
    ).contains(bits) by {
        if bits == entity@ {
            assert(longer[entities.len() as int]@ == bits);
        } else {
            let k = choose|k: int| 0 <= k < entities.len() && (#[trigger] entities[k])@ == bits;
            assert(longer[k]@ == bits);
        }
    }
    assert forall|bits: u64| ids_of(longer).contains(bits) implies ids_of(entities).insert(
        entity@,
    ).contains(bits) by {
        let k = choose|k: int| 0 <= k < longer.len() && (#[trigger] longer[k])@ == bits;
        if k < entities.len() {
            assert(entities[k]@ == bits);
        }
    }
    assert(ids_of(longer) =~= ids_of(entities).insert(entity@));
}

/// The entity hash set of the ECS, a collection that Verus does not look into.
#[verifier::external_type_specification]
#[verifier::external_body]
pub struct ExEntityHashSet(EntityHashSet);

/// The entities that an entity hash set holds, each by its bits.
pub uninterp spec fn entity_set_ids(set: EntityHashSet) -> Set<u64>;

/// `EntityHashSet::new`: the set that holds nothing.
#[verifier::external_body]
pub(crate) fn entity_set_new() -> (set: EntityHashSet)
    ensures
        entity_set_ids(set) == Set::<u64>::empty(),
{
    EntityHashSet::new()
}

/// `EntityHashSet::clone`: a set of its own that holds the same entities.
#[verifier::external_body]
pub(crate) fn entity_set_clone(set: &EntityHashSet) -> (copy: EntityHashSet)
    ensures
        entity_set_ids(copy) == entity_set_ids(*set),
{
    set.clone()
}

/// `HashSet::insert` through an entity hash set: the entity is in the set
/// afterwards, nothing else changes, and the result says whether it was new.
/// `Entity::from_bits` panics on bits that are not an entity's.
#[verifier::external_body]
pub(crate) fn entity_set_insert(set: &mut EntityHashSet, id: EntityId) -> (fresh: bool)
    requires
        id.well_formed(),
    ensures
        entity_set_ids(*final(set)) == entity_set_ids(*old(set)).insert(id@),
        fresh == !entity_set_ids(*old(set)).contains(id@),
{
    set.insert(Entity::from_bits(id.bits))
}

/// `HashSet::contains` through an entity hash set: whether the set holds the
/// entity. `Entity::from_bits` panics on bits that are not an entity's.
#[verifier::external_body]
pub(crate) fn entity_set_contains(set: &EntityHashSet, id: EntityId) -> (present: bool)
    requires
        id.well_formed(),
    ensures
        present == entity_set_ids(*set).contains(id@),
{
    set.contains(&Entity::from_bits(id.bits))
}

/// `HashSet::difference`, collected into a new entity hash set: the entities
/// of `set` that `other` does not hold.
#[verifier::external_body]
pub(crate) fn entity_set_difference(set: &EntityHashSet, other: &EntityHashSet) -> (rest:
    EntityHashSet)
    ensures
        entity_set_ids(rest) == entity_set_ids(*set).difference(entity_set_ids(*other)),
{
    EntityHashSet::from_iter(set.difference(other).copied())
}

/// `EntityHashSet::iter`: every entity of the set once, in an order that
/// nothing is said about. `Entity::to_bits` gives each its bits, which are
/// valid: an entity has a generation, and none above `0x7FFF_FFFF`.
#[verifier::external_body]
pub(crate) fn entity_set_members(set: &EntityHashSet) -> (members: Vec<EntityId>)
    ensures
        members@.no_duplicates(),
        ids_of(members@) == entity_set_ids(*set),
        forall|i: int| 0 <= i < members.len() ==> (#[trigger] members[i]).well_formed(),
{
    set.iter().map(|entity| EntityId { bits: entity.to_bits() }).collect()
}

/// Whether the identities grow from each to the next.
pub open spec fn ascending(entities: Seq<EntityId>) -> bool {
    forall|i: int, j: int| 0 <= i < j < entities.len() ==> entities[i]@ < entities[j]@
}

/// Whether `listing` names the identities `ids`, each once, the smallest
/// first.
pub open spec fn is_listing_of(listing: Seq<EntityId>, ids: Set<u64>) -> bool {
    ascending(listing) && ids_of(listing) == ids
}

/// A set of identities has one listing and no other.
pub proof fn lemma_listing_unique(first: Seq<EntityId>, second: Seq<EntityId>, ids: Set<u64>)
    requires
        is_listing_of(first, ids),
        is_listing_of(second, ids),
    ensures
        first == second,
    decreases first.len(),
{
    if first.len() == 0 {
        if second.len() > 0 {
            assert(!ids_of(first).contains(second[0]@));
        }
    } else {
        assert(ids_of(first).contains(first[0]@));
        assert(ids_of(second).contains(second[0]@));
        let rest = ids.remove(first[0]@);
        let first_rest = first.skip(1);
        let second_rest = second.skip(1);
        assert forall|bits: u64| rest.contains(bits) implies ids_of(first_rest).contains(bits) by {
            let k = choose|k: int| 0 <= k < first.len() && (#[trigger] first[k])@ == bits;
            assert(first_rest[k - 1]@ == bits);
        }
        assert forall|bits: u64| rest.contains(bits) implies ids_of(second_rest).contains(
            bits,
        ) by {
            let k = choose|k: int| 0 <= k < second.len() && (#[trigger] second[k])@ == bits;
            assert(second_rest[k - 1]@ == bits);
        }
        assert(ids_of(first_rest) =~= rest);
        assert(ids_of(second_rest) =~= rest);
        lemma_listing_unique(first_rest, second_rest, rest);
        assert(second =~= seq![second[0]] + second_rest);
    }
}

/// The entities of the set, the smallest identity first.
pub fn entity_set_listing(set: &EntityHashSet) -> (listing: Vec<EntityId>)
    ensures
        is_listing_of(listing@, entity_set_ids(*set)),
{
    let members = entity_set_members(set);
    let mut listing: Vec<EntityId> = Vec::new();
    let mut i: usize = 0;
    while i < members.len()
        invariant
            i <= members.len(),
            members@.no_duplicates(),
            ascending(listing@),
            ids_of(listing@) == ids_of(members@.take(i as int)),
        decreases members.len() - i,
    {
        let member = members[i];
        let mut at: usize = 0;
        while at < listing.len() && listing[at].to_bits() < member.to_bits()
            invariant
                at <= listing.len(),
                forall|k: int| 0 <= k < at ==> (#[trigger] listing[k])@ < member@,
            decreases listing.len() - at,
        {
            at += 1;
        }
        let ghost before = listing@;
        proof {
            if at < before.len() && before[at as int]@ == member@ {
                assert(ids_of(before).contains(member@));
            }
        }
        listing.insert(at, member);
        proof {
            let longer = members@.take(i + 1);
            assert forall|bits: u64| ids_of(listing@).contains(bits) implies ids_of(
                longer,
            ).contains(bits) by {
                let k = choose|k: int|
                    0 <= k < listing.len() && (#[trigger] listing@[k])@ == bits;
                if k != at {
                    assert(ids_of(before).contains(bits));
                } else {
                    assert(longer[i as int]@ == bits);
                }
            }
            assert forall|bits: u64| ids_of(longer).contains(bits) implies ids_of(
                listing@,
            ).contains(bits) by {
                let m = choose|m: int| 0 <= m < longer.len() && (#[trigger] longer[m])@ == bits;
                if m < i {
                    assert(ids_of(before).contains(bits));
                    let k = choose|k: int|
                        0 <= k < before.len() && (#[trigger] before[k])@ == bits;
                    if k < at {
                        assert(listing@[k]@ == bits);
                    } else {
                        assert(listing@[k + 1]@ == bits);
                    }
                } else {
                    assert(listing@[at as int]@ == bits);
                }
            }
            assert(ids_of(listing@) =~= ids_of(longer));
        }
        i += 1;
    }
    assert(members@.take(members.len() as int) == members@);
    listing
}

} // verus!
