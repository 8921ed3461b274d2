//! The order in which the handlers are offered an input method.

use crate::entity::{lemma_entity_id_by_bits, EntityId};
use vstd::prelude::*;
use vstd::relations::{sorted_by, total_ordering};
use vstd::seq_lib::{lemma_sorted_unique, to_multiset_insert};

verus! {

/// A handler that may take an input method, with the keys that place it.
/// `ray_length` is how far along the method's ray its closest approach to the
/// handler's field lies, 0 for a method that is no ray; `distance` is how far
/// from the field the method is there. Both are ordered keys: a smaller key
/// is a smaller length.
#[derive(Clone, Copy, Debug, PartialEq, Eq, Structural)]
pub struct HandlerCandidate {
    pub handler: EntityId,
    pub ray_length: i64,
    pub distance: i64,
}

/// Whether `a` is offered the method no later than `b`: the shorter ray
/// length first, then the smaller distance, then the smaller identity.
pub open spec fn goes_first(a: HandlerCandidate, b: HandlerCandidate) -> bool {
    ||| a.ray_length < b.ray_length
    ||| a.ray_length == b.ray_length && a.distance < b.distance
    ||| a.ray_length == b.ray_length && a.distance == b.distance && a.handler@ <= b.handler@
}

/// `goes_first` as a relation.
pub open spec fn candidate_order() -> spec_fn(HandlerCandidate, HandlerCandidate) -> bool {
    |a: HandlerCandidate, b: HandlerCandidate| goes_first(a, b)
}

/// The handlers of the candidates, in the candidates' order.
pub open spec fn handlers_of(candidates: Seq<HandlerCandidate>) -> Seq<EntityId> {
    Seq::new(candidates.len(), |i: int| candidates[i].handler)
}

/// Whether `sorted` holds the candidates of `candidates`, each as often as
/// it is there, first choice first.
pub open spec fn is_ordering_of(
    sorted: Seq<HandlerCandidate>,
    candidates: Seq<HandlerCandidate>,
) -> bool {
    &&& sorted_by(sorted, candidate_order())
    &&& sorted.to_multiset() == candidates.to_multiset()
}

/// The candidates are totally ordered: of two different ones, exactly one
/// goes first.
pub proof fn lemma_candidate_order_total()
    ensures
        total_ordering(candidate_order()),
{
    let order = candidate_order();
    assert forall|a: HandlerCandidate, b: HandlerCandidate| #[trigger]
        order(a, b) && #[trigger] order(b, a) implies a == b by {
        lemma_entity_id_by_bits(a.handler, b.handler);
    }
}

/// There is one ordering of given candidates and no other: whoever orders
/// the same candidates gets the same sequence.
pub proof fn lemma_ordering_unique(
    candidates: Seq<HandlerCandidate>,
    first: Seq<HandlerCandidate>,
    second: Seq<HandlerCandidate>,
)
    requires
        is_ordering_of(first, candidates),
        is_ordering_of(second, candidates),
    ensures
        first == second,
{
    lemma_candidate_order_total();
    lemma_sorted_unique(first, second, candidate_order());
}

/// Whether `a` goes first, of two candidates.
pub fn precedes(a: &HandlerCandidate, b: &HandlerCandidate) -> (first: bool)
    ensures
        first == goes_first(*a, *b),
{
    if a.ray_length != b.ray_length {
        a.ray_length < b.ray_length
    } else if a.distance != b.distance {
        a.distance < b.distance
    } else {
        a.handler.to_bits() <= b.handler.to_bits()
    }
}

/// Orders the candidates: nearest along the ray first, at equal length the
/// one nearest to its field, at equal distance the one with the smaller
/// identity.
pub fn sort_candidates(candidates: &Vec<HandlerCandidate>) -> (sorted: Vec<HandlerCandidate>)
    ensures
        is_ordering_of(sorted@, candidates@),
        sorted.len() == candidates.len(),
{
    let mut sorted: Vec<HandlerCandidate> = Vec::new();
    let mut i: usize = 0;
    assert(sorted@ == candidates@.take(0));
    while i < candidates.len()
        invariant
            i <= candidates.len(),
            sorted.len() == i,
            sorted_by(sorted@, candidate_order()),
            sorted@.to_multiset() == candidates@.take(i as int).to_multiset(),
        decreases candidates.len() - i,
    {
        let candidate = candidates[i];
        let mut at: usize = 0;
        while at < sorted.len() && precedes(&sorted[at], &candidate)
            invariant
                at <= sorted.len(),
                forall|k: int| 0 <= k < at ==> goes_first(#[trigger] sorted[k], candidate),
            decreases sorted.len() - at,
        {
            at += 1;
        }
        let ghost before = sorted@;
        sorted.insert(at, candidate);
        proof {
            lemma_candidate_order_total();
            to_multiset_insert(before, at as int, candidate);
            let shorter = candidates@.take(i as int);
            let longer = candidates@.take(i + 1);
            assert(longer == shorter.push(candidate));
            vstd::seq_lib::to_multiset_build(shorter, candidate);
            assert forall|x: int, y: int|
                0 <= x < y < sorted.len() implies #[trigger] candidate_order()(
                sorted[x],
                sorted[y],
            ) by {
                if x == at && at as int != y - 1 {
                    assert(candidate_order()(before[at as int], before[y - 1]));
                }
            }
        }
        i += 1;
    }
    assert(candidates@.take(candidates.len() as int) == candidates@);
    sorted
}

/// The handlers in the order in which an input method is offered to them.
pub fn order_handlers(candidates: &Vec<HandlerCandidate>) -> (order: Vec<EntityId>)
    ensures
        exists|sorted: Seq<HandlerCandidate>| #[trigger]
            is_ordering_of(sorted, candidates@) && order@ == handlers_of(sorted),
        order.len() == candidates.len(),
{
    let sorted = sort_candidates(candidates);
    let mut order: Vec<EntityId> = Vec::new();
    let mut i: usize = 0;
    while i < sorted.len()
        invariant
            i <= sorted.len(),
            order.len() == i,
            forall|k: int| 0 <= k < i ==> #[trigger] order[k] == sorted[k].handler,
        decreases sorted.len() - i,
    {
        order.push(sorted[i].handler);
        i += 1;
    }
    order
}

} // verus!
