//! The visibility update pass: which entities each light sees.
//!
//! A pass recomputes a light's frusta from the light's position and range,
//! then rebuilds the light's sets of visible entities from scratch by
//! testing every candidate against each frustum.
//!
//! A light's data is stale from the moment the light or the scene changes
//! until the next pass. The pass borrows the data mutably for as long as it
//! recomputes, so nobody else can see a set half rebuilt; when it returns,
//! every set is fresh: it holds what the light sees among the candidates.

use crate::candidates::{has_distinct_entities, Candidate, Candidates};
use crate::cubemap::CubemapFrusta;
use crate::entities::{clear_entities, entities_of, push_entity, CubemapVisibleEntities};
use crate::face::CubeFace;
use crate::frustum::Frustum;
use crate::geometry::IVec3;
use crate::projection::OrthographicBox;
use bevy_render::view::VisibleEntities;
use vstd::prelude::*;

verus! {

/// What the pass reads of a point light.
#[derive(Clone, Copy, Debug, PartialEq, Eq, Structural)]
pub struct PointLight {
    pub position: IVec3,
    pub range: i32,
    pub shadows_enabled: bool,
}

/// What the pass reads of a directional light: where its shadow volume is
/// anchored, the axis direction it shines along, and the volume's extent
/// around its line of sight.
#[derive(Clone, Copy, Debug, PartialEq, Eq, Structural)]
pub struct DirectionalLight {
    pub position: IVec3,
    pub direction: CubeFace,
    pub extent: OrthographicBox,
    pub shadows_enabled: bool,
}

impl Frustum {
    /// Whether the frustum admits the candidate: it has no bounds, or its
    /// bounds pass the frustum's test.
    pub open spec fn spec_admits(&self, candidate: &Candidate) -> bool {
        match candidate.bounds {
            None => true,
            Some(volume) => self.intersects(&volume),
        }
    }

    /// Whether the frustum admits the candidate.
    #[verifier::when_used_as_spec(spec_admits)]
    pub fn admits(&self, candidate: &Candidate) -> (admitted: bool)
        ensures
            admitted == self.spec_admits(candidate),
    {
        match &candidate.bounds {
            None => true,
            Some(volume) => self.intersects(volume),
        }
    }
}

/// The entities that `frustum` admits among `candidates`, in the order of
/// the candidates.
pub open spec fn visible_from(frustum: Frustum, candidates: Seq<Candidate>) -> Seq<u64> {
    candidates.filter(|c: Candidate| frustum.admits(&c)).map_values(|c: Candidate| c.entity)
}

/// A candidate added at the end comes last among the visible entities if
/// the frustum admits it, and changes nothing if not.
pub proof fn lemma_visible_from_push(frustum: Frustum, candidates: Seq<Candidate>, c: Candidate)
    ensures
        visible_from(frustum, candidates.push(c)) == if frustum.admits(&c) {
            visible_from(frustum, candidates).push(c.entity)
        } else {
            visible_from(frustum, candidates)
        },
{
    let admitted = |c: Candidate| frustum.admits(&c);
    let entity = |c: Candidate| c.entity;
    candidates.lemma_filter_push(c, admitted);
    candidates.filter(admitted).lemma_push_map_commute(entity, c);
}

/// No candidate, no visible entity.
pub proof fn lemma_visible_from_nothing(frustum: Frustum)
    ensures
        visible_from(frustum, Seq::<Candidate>::empty()) == Seq::<u64>::empty(),
{
    let admitted = |c: Candidate| frustum.admits(&c);
    Seq::<Candidate>::empty().lemma_filter_len(admitted);
    assert(visible_from(frustum, Seq::<Candidate>::empty()) =~= Seq::<u64>::empty());
}

/// Rebuilds `visible` as the entities that `frustum` admits among
/// `candidates`, in the order of the candidates. What the set held before is
/// dropped.
pub fn collect_visible(
    frustum: &Frustum,
    candidates: &Candidates,
    visible: &mut VisibleEntities,
)
    ensures
        entities_of(*final(visible)) == visible_from(*frustum, candidates@),
        entities_of(*final(visible)).no_duplicates(),
{
    clear_entities(visible);
    proof {
        lemma_visible_from_nothing(*frustum);
        assert(candidates@.take(0) =~= Seq::<Candidate>::empty());
    }
    let count = candidates.len();
    let mut i: usize = 0;
    while i < count
        invariant
            count == candidates@.len(),
            i <= count,
            entities_of(*visible) == visible_from(*frustum, candidates@.take(i as int)),
        decreases count - i,
    {
        let candidate = candidates.get(i);
        proof {
            candidates@.lemma_take_succ_push(i as int);
            lemma_visible_from_push(*frustum, candidates@.take(i as int), *candidate);
        }
        if frustum.admits(candidate) {
            push_entity(visible, candidate.entity);
        }
        i = i + 1;
    }
    proof {
        candidates@.lemma_take_len();
        lemma_visible_from_no_duplicates(*frustum, candidates@);
    }
}

/// Rebuilds the six sets of `visible`, each as the entities that the
/// frustum of its face admits among `candidates`.
pub fn collect_visible_faces(
    frusta: &CubemapFrusta,
    candidates: &Candidates,
    visible: &mut CubemapVisibleEntities,
)
    ensures
        final(visible)@.len() == 6,
        forall|i: int|
            0 <= i < 6 ==> entities_of(#[trigger] final(visible)@[i]) == visible_from(
                frusta@[i],
                candidates@,
            ),
        forall|i: int| 0 <= i < 6 ==> entities_of(#[trigger] final(visible)@[i]).no_duplicates(),
{
    let mut face: usize = 0;
    proof {
        visible.lemma_six_faces();
        frusta.lemma_six_frusta();
    }
    while face < 6
        invariant
            face <= 6,
            visible@.len() == 6,
            frusta@.len() == 6,
            forall|i: int|
                0 <= i < face ==> entities_of(#[trigger] visible@[i]) == visible_from(
                    frusta@[i],
                    candidates@,
                ),
            forall|i: int| 0 <= i < face ==> entities_of(#[trigger] visible@[i]).no_duplicates(),
        decreases 6 - face,
    {
        collect_visible(frusta.get(face), candidates, visible.get_mut(face));
        face = face + 1;
    }
}

/// Empties the six sets of `visible`.
pub fn clear_visible_faces(visible: &mut CubemapVisibleEntities)
    ensures
        final(visible)@.len() == 6,
        forall|i: int|
            0 <= i < 6 ==> entities_of(#[trigger] final(visible)@[i]) == Seq::<u64>::empty(),
{
    let mut face: usize = 0;
    proof {
        visible.lemma_six_faces();
    }
    while face < 6
        invariant
            face <= 6,
            visible@.len() == 6,
            forall|i: int|
                0 <= i < face ==> entities_of(#[trigger] visible@[i]) == Seq::<u64>::empty(),
        decreases 6 - face,
    {
        clear_entities(visible.get_mut(face));
        face = face + 1;
    }
}

/// What a point light sees through the face with number `i`, among
/// `candidates`: nothing when the light casts no shadows, else what the
/// face's frustum admits.
pub open spec fn point_light_sees(light: PointLight, candidates: Seq<Candidate>, i: int) -> Seq<
    u64,
> {
    if light.shadows_enabled {
        visible_from(CubemapFrusta::faces_at(light.position, light.range)[i], candidates)
    } else {
        Seq::empty()
    }
}

/// What a directional light sees among `candidates`: nothing when the light
/// casts no shadows, else what its frustum admits.
pub open spec fn directional_light_sees(
    light: DirectionalLight,
    candidates: Seq<Candidate>,
) -> Seq<u64> {
    if light.shadows_enabled {
        visible_from(
            Frustum::orthographic(&light.position, light.direction, &light.extent),
            candidates,
        )
    } else {
        Seq::empty()
    }
}

/// The pass for a point light: recomputes the six frusta from the light's
/// position and range, then rebuilds the six sets of visible entities. A
/// light that casts no shadows sees nothing.
pub fn update_point_light(
    light: &PointLight,
    candidates: &Candidates,
    frusta: &mut CubemapFrusta,
    visible: &mut CubemapVisibleEntities,
)
    ensures
        final(frusta)@ == CubemapFrusta::faces_at(light.position, light.range),
        final(visible)@.len() == 6,
        forall|i: int|
            0 <= i < 6 ==> entities_of(#[trigger] final(visible)@[i]) == point_light_sees(
                *light,
                candidates@,
                i,
            ),
        forall|i: int| 0 <= i < 6 ==> entities_of(#[trigger] final(visible)@[i]).no_duplicates(),
{
    frusta.update(&light.position, light.range);
    if light.shadows_enabled {
        collect_visible_faces(frusta, candidates, visible);
    } else {
        clear_visible_faces(visible);
    }
}

/// The pass for a directional light: recomputes the frustum from the
/// light's position, direction and extent, then rebuilds the set of visible
/// entities. A light that casts no shadows sees nothing.
pub fn update_directional_light(
    light: &DirectionalLight,
    candidates: &Candidates,
    frustum: &mut Frustum,
    visible: &mut VisibleEntities,
)
    ensures
        *final(frustum) == Frustum::orthographic(&light.position, light.direction, &light.extent),
        entities_of(*final(visible)) == directional_light_sees(*light, candidates@),
        entities_of(*final(visible)).no_duplicates(),
{
    *frustum = Frustum::orthographic(&light.position, light.direction, &light.extent);
    if light.shadows_enabled {
        collect_visible(frustum, candidates, visible);
    } else {
        clear_entities(visible);
    }
}

/// An entity is visible exactly when some candidate is that entity and is
/// admitted by the frustum.
pub proof fn lemma_visible_from_contains(
    frustum: Frustum,
    candidates: Seq<Candidate>,
    entity: u64,
)
    ensures
        visible_from(frustum, candidates).contains(entity) <==> exists|k: int|
            0 <= k < candidates.len() && (#[trigger] candidates[k]).entity == entity
                && frustum.admits(&candidates[k]),
    decreases candidates.len(),
{
    if candidates.len() == 0 {
        lemma_visible_from_nothing(frustum);
        assert(candidates =~= Seq::<Candidate>::empty());
    } else {
        let rest = candidates.drop_last();
        let last = candidates.last();
        assert(candidates =~= rest.push(last));
        lemma_visible_from_push(frustum, rest, last);
        lemma_visible_from_contains(frustum, rest, entity);
        let seen = visible_from(frustum, candidates);
        let seen_before = visible_from(frustum, rest);
        if seen.contains(entity) {
            let i = choose|i: int| 0 <= i < seen.len() && seen[i] == entity;
            if frustum.admits(&last) && i == seen.len() - 1 {
                assert(candidates[candidates.len() - 1] == last);
            } else {
                assert(seen_before[i] == entity);
                let k = choose|k: int|
                    0 <= k < rest.len() && (#[trigger] rest[k]).entity == entity && frustum.admits(
                        &rest[k],
                    );
                assert(candidates[k] == rest[k]);
            }
        }
        if exists|k: int|
            0 <= k < candidates.len() && (#[trigger] candidates[k]).entity == entity
                && frustum.admits(&candidates[k]) {
            let k = choose|k: int|
                0 <= k < candidates.len() && (#[trigger] candidates[k]).entity == entity
                    && frustum.admits(&candidates[k]);
            if k == candidates.len() - 1 {
                assert(seen[seen.len() - 1] == entity);
            } else {
                assert(rest[k] == candidates[k]);
                let i = choose|i: int| 0 <= i < seen_before.len() && seen_before[i] == entity;
                assert(seen[i] == entity);
            }
        }
    }
}

/// Among candidates that are all different entities, no entity is visible
/// twice.
pub proof fn lemma_visible_from_no_duplicates(frustum: Frustum, candidates: Seq<Candidate>)
    requires
        has_distinct_entities(candidates),
    ensures
        visible_from(frustum, candidates).no_duplicates(),
    decreases candidates.len(),
{
    if candidates.len() == 0 {
        lemma_visible_from_nothing(frustum);
        assert(candidates =~= Seq::<Candidate>::empty());
    } else {
        let rest = candidates.drop_last();
        let last = candidates.last();
        assert(candidates =~= rest.push(last));
        lemma_visible_from_push(frustum, rest, last);
        lemma_visible_from_no_duplicates(frustum, rest);
        lemma_visible_from_contains(frustum, rest, last.entity);
        let seen_before = visible_from(frustum, rest);
        if seen_before.contains(last.entity) {
            let k = choose|k: int|
                0 <= k < rest.len() && (#[trigger] rest[k]).entity == last.entity && frustum.admits(
                    &rest[k],
                );
            assert(candidates[k] == rest[k]);
            assert(candidates[candidates.len() - 1] == last);
            assert(false);
        }
    }
}

/// An entity whose bounds fail the frustum's test is absent from the
/// visible entities. Bounds fail the test when some plane of the frustum
/// has the whole of them strictly outside.
pub proof fn lemma_outside_is_absent(frustum: Frustum, candidates: Seq<Candidate>, k: int)
    requires
        0 <= k < candidates.len(),
        has_distinct_entities(candidates),
        candidates[k].bounds matches Some(volume) && !frustum.intersects(&volume),
    ensures
        !visible_from(frustum, candidates).contains(candidates[k].entity),
{
    lemma_visible_from_contains(frustum, candidates, candidates[k].entity);
}

/// An entity whose bounds hold a point and lie wholly inside the frustum is
/// among the visible entities, and exactly once.
pub proof fn lemma_inside_is_present_once(frustum: Frustum, candidates: Seq<Candidate>, k: int)
    requires
        0 <= k < candidates.len(),
        has_distinct_entities(candidates),
        candidates[k].bounds matches Some(volume) && volume.is_non_empty() && forall|p: IVec3|
            volume.contains(p) ==> frustum.contains(&p),
    ensures
        visible_from(frustum, candidates).contains(candidates[k].entity),
        forall|i: int, j: int|
            #![trigger visible_from(frustum, candidates)[i], visible_from(frustum, candidates)[j]]
            {
                let seen = visible_from(frustum, candidates);
                0 <= i < seen.len() && 0 <= j < seen.len() && seen[i] == candidates[k].entity
                    && seen[j] == candidates[k].entity ==> i == j
            },
{
    let volume = candidates[k].bounds->0;
    frustum.lemma_volume_inside_intersects(&volume);
    lemma_visible_from_contains(frustum, candidates, candidates[k].entity);
    lemma_visible_from_no_duplicates(frustum, candidates);
}

/// Recomputing is idempotent: two sets rebuilt from the same frustum and
/// the same candidates hold the same entities in the same order, whatever
/// either held before.
pub proof fn lemma_recomputing_is_idempotent(
    frustum: Frustum,
    candidates: Seq<Candidate>,
    first: VisibleEntities,
    second: VisibleEntities,
)
    requires
        entities_of(first) == visible_from(frustum, candidates),
        entities_of(second) == visible_from(frustum, candidates),
    ensures
        entities_of(first) == entities_of(second),
{
}

} // verus!
