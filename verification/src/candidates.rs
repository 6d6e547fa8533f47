//! The entities that a pass tests: a list in scan order in which no entity
//! stands twice.

use crate::geometry::BoundingVolume;
use std::collections::HashSet;
use vstd::prelude::*;

verus! {

/// An entity that a light may see. `entity` holds the entity's 64 bits;
/// `bounds` is the volume that encloses the entity's geometry in world
/// space. An entity without bounds cannot be culled: every frustum admits
/// it.
#[derive(Clone, Copy, Debug, PartialEq, Eq, Structural)]
pub struct Candidate {
    pub entity: u64,
    pub bounds: Option<BoundingVolume>,
}

/// Whether no two candidates are the same entity.
pub open spec fn has_distinct_entities(candidates: Seq<Candidate>) -> bool {
    forall|i: int, j: int|
        0 <= i < j < candidates.len() ==> candidates[i].entity != candidates[j].entity
}

/// Whether some candidate is the entity `entity`.
pub open spec fn holds_entity(candidates: Seq<Candidate>, entity: u64) -> bool {
    exists|i: int| 0 <= i < candidates.len() && (#[trigger] candidates[i]).entity == entity
}

/// The candidates of a pass, in the order in which the pass tests them. No
/// entity stands twice among them.
#[derive(Debug)]
pub struct Candidates {
    items: Vec<Candidate>,
    entities: HashSet<u64>,
}

impl View for Candidates {
    type V = Seq<Candidate>;

    closed spec fn view(&self) -> Seq<Candidate> {
        self.items@
    }
}

impl Candidates {
    /// No entity stands twice in `items`, and `entities` holds the entities
    /// of `items`.
    #[verifier::type_invariant]
    closed spec fn is_consistent(&self) -> bool {
        &&& has_distinct_entities(self.items@)
        &&& forall|entity: u64| self.entities@.contains(entity) <==> holds_entity(self.items@, entity)
    }

    /// The empty list.
    pub fn new() -> (candidates: Candidates)
        ensures
            candidates@ == Seq::<Candidate>::empty(),
    {
        Candidates { items: Vec::new(), entities: HashSet::new() }
    }

    /// Adds `candidate` at the end, unless its entity is already there; the
    /// result tells whether it was added.
    pub fn insert(&mut self, candidate: Candidate) -> (added: bool)
        ensures
            added <==> !holds_entity(old(self)@, candidate.entity),
            final(self)@ == if added {
                old(self)@.push(candidate)
            } else {
                old(self)@
            },
    {
        broadcast use vstd::std_specs::hash::group_hash_axioms;

        proof {
            use_type_invariant(&*self);
        }
        if self.entities.contains(&candidate.entity) {
            return false;
        }
        let ghost before = self.items@;
        let mut taken = Candidates::new();
        core::mem::swap(self, &mut taken);
        let Candidates { mut items, mut entities } = taken;
        entities.insert(candidate.entity);
        items.push(candidate);
        proof {
            let after = items@;
            assert(after == before.push(candidate));
            assert forall|entity: u64| entities@.contains(entity) <==> holds_entity(
                after,
                entity,
            ) by {
                if holds_entity(after, entity) {
                    let i = choose|i: int|
                        0 <= i < after.len() && (#[trigger] after[i]).entity == entity;
                    if i < before.len() {
                        assert(before[i].entity == entity);
                    }
                }
                if holds_entity(before, entity) {
                    let i = choose|i: int|
                        0 <= i < before.len() && (#[trigger] before[i]).entity == entity;
                    assert(after[i].entity == entity);
                }
                if entity == candidate.entity {
                    assert(after[before.len() as int].entity == entity);
                }
            }
            assert forall|i: int, j: int| 0 <= i < j < after.len() implies after[i].entity
                != after[j].entity by {
                if j == before.len() {
                    assert(before[i].entity == after[i].entity);
                } else {
                    assert(before[i] == after[i] && before[j] == after[j]);
                }
            }
        }
        *self = Candidates { items, entities };
        true
    }

    /// The number of candidates.
    pub fn len(&self) -> (n: usize)
        ensures
            n == self@.len(),
            has_distinct_entities(self@),
    {
        proof {
            use_type_invariant(self);
        }
        self.items.len()
    }

    /// The candidate at position `i`.
    pub fn get(&self, i: usize) -> (candidate: &Candidate)
        requires
            i < self@.len(),
        ensures
            *candidate == self@[i as int],
    {
        &self.items[i]
    }

    /// Whether some candidate is the entity `entity`.
    pub fn contains(&self, entity: u64) -> (found: bool)
        ensures
            found == holds_entity(self@, entity),
    {
        broadcast use vstd::std_specs::hash::group_hash_axioms;

        proof {
            use_type_invariant(self);
        }
        self.entities.contains(&entity)
    }
}

/// The empty list.
impl Default for Candidates {
    fn default() -> (candidates: Candidates)
        ensures
            candidates@ == Seq::<Candidate>::empty(),
    {
        Candidates::new()
    }
}

} // verus!
