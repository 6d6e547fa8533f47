//! The sets of entities that a light sees, held in the renderer's own
//! `VisibleEntities`.

use crate::face::FACE_COUNT;
use bevy_ecs::entity::Entity;
use bevy_render::view::VisibleEntities;
use vstd::prelude::*;
use vstd::std_specs::iter::IteratorSpec;

verus! {

/// `bevy_render::view::VisibleEntities`, a list of entities. Nothing is
/// known of a value of it but what `entities_of` names.
#[verifier::external_type_specification]
#[verifier::external_body]
pub struct ExVisibleEntities(VisibleEntities);

/// The entities that a `VisibleEntities` holds, in order, each as the 64 bits
/// that `Entity::to_bits` gives for it.
pub uninterp spec fn entities_of(visible: VisibleEntities) -> Seq<u64>;

/// `VisibleEntities::default`: a set that holds no entity.
#[verifier::external_body]
pub(crate) fn empty_visible_entities() -> (visible: VisibleEntities)
    ensures
        entities_of(visible) == Seq::<u64>::empty(),
{
    VisibleEntities::default()
}

/// `Vec::clear` on the `entities` field: afterwards the set holds no entity.
#[verifier::external_body]
pub(crate) fn clear_entities(visible: &mut VisibleEntities)
    ensures
        entities_of(*final(visible)) == Seq::<u64>::empty(),
{
    visible.entities.clear();
}

/// `Vec::push` on the `entities` field, of the entity that `Entity::from_bits`
/// makes of `bits`: the set is the old one with that entity at its end.
#[verifier::external_body]
pub(crate) fn push_entity(visible: &mut VisibleEntities, bits: u64)
    ensures
        entities_of(*final(visible)) == entities_of(*old(visible)).push(bits),
{
    visible.entities.push(Entity::from_bits(bits));
}

/// The entities that a point light sees: six sets, one per face of the
/// light's cube map in the order of the faces' numbers, each filled through
/// the frustum of its face.
#[derive(Clone, Debug)]
pub struct CubemapVisibleEntities {
    data: [VisibleEntities; 6],
}

impl View for CubemapVisibleEntities {
    type V = Seq<VisibleEntities>;

    closed spec fn view(&self) -> Seq<VisibleEntities> {
        self.data@
    }
}

impl CubemapVisibleEntities {
    /// The set of the face with number `i`.
    pub fn get(&self, i: usize) -> (face: &VisibleEntities)
        requires
            i < FACE_COUNT,
        ensures
            *face == self@[i as int],
    {
        &self.data[i]
    }

    /// The set of the face with number `i`, to be changed in place. The
    /// other five sets stay as they are.
    pub fn get_mut(&mut self, i: usize) -> (face: &mut VisibleEntities)
        requires
            i < FACE_COUNT,
        ensures
            *face == old(self)@[i as int],
            final(self)@ == old(self)@.update(i as int, *final(face)),
    {
        &mut self.data[i]
    }

    /// The iterator that `iter` returns.
    pub closed spec fn spec_iter(&self) -> core::slice::Iter<'_, VisibleEntities> {
        vstd::array::spec_array_iter(&self.data)
    }

    /// Iterates over the six sets in the order of the faces' numbers; from
    /// the back, in the reverse order.
    #[verifier::when_used_as_spec(spec_iter)]
    pub fn iter(&self) -> (faces: core::slice::Iter<'_, VisibleEntities>)
        ensures
            faces == self.spec_iter(),
            IteratorSpec::remaining(&faces) == self@.as_ref(),
            IteratorSpec::decrease(&faces) is Some,
            IteratorSpec::initial_value_relation(&faces, &faces),
    {
        (&self.data).into_iter()
    }

    /// The six sets in the order of the faces' numbers, each to be changed
    /// in place.
    pub fn iter_mut(&mut self) -> (faces: Vec<&mut VisibleEntities>)
        ensures
            faces@.len() == 6,
            forall|i: int| 0 <= i < 6 ==> *(#[trigger] faces@[i]) == old(self)@[i],
            final(self)@.len() == 6,
            forall|i: int| 0 <= i < 6 ==> (#[trigger] final(self)@[i]) == *final(faces@[i]),
    {
        let all: &mut [VisibleEntities] = &mut self.data;
        let (s0, r0) = all.split_at_mut(1);
        let (s1, r1) = r0.split_at_mut(1);
        let (s2, r2) = r1.split_at_mut(1);
        let (s3, r3) = r2.split_at_mut(1);
        let (s4, s5) = r3.split_at_mut(1);
        let f0 = s0.first_mut().unwrap();
        let f1 = s1.first_mut().unwrap();
        let f2 = s2.first_mut().unwrap();
        let f3 = s3.first_mut().unwrap();
        let f4 = s4.first_mut().unwrap();
        let f5 = s5.first_mut().unwrap();
        let mut faces: Vec<&mut VisibleEntities> = Vec::new();
        faces.push(f0);
        faces.push(f1);
        faces.push(f2);
        faces.push(f3);
        faces.push(f4);
        faces.push(f5);
        faces
    }

    /// A cube map always has six faces.
    pub proof fn lemma_six_faces(&self)
        ensures
            self@.len() == 6,
    {
    }
}

/// Six sets that hold no entity.
impl Default for CubemapVisibleEntities {
    fn default() -> (cubemap: CubemapVisibleEntities)
        ensures
            cubemap@.len() == 6,
            forall|i: int|
                0 <= i < 6 ==> entities_of(#[trigger] cubemap@[i]) == Seq::<u64>::empty(),
    {
        CubemapVisibleEntities {
            data: [
                empty_visible_entities(),
                empty_visible_entities(),
                empty_visible_entities(),
                empty_visible_entities(),
                empty_visible_entities(),
                empty_visible_entities(),
            ],
        }
    }
}

} // verus!
