//! Incremental specialization: change ticks per entity and per view, and
//! the cache from (view, entity) pairs to the tick and pipeline they were
//! last specialized with.
use vstd::prelude::*;
use std::collections::HashMap;
use crate::allocator::{extra_data_of, MaterialBindGroupAllocator};
use crate::key::{mesh_key, mesh_key_of, InstanceKeyInputs, MaterialPipelineKey};
use crate::material::PreparedMaterial;
use crate::phase::{Translation, ViewRangefinder3d};
use crate::pipeline::{
    missing_attributes,
    MaterialPipeline,
    PipelineCache,
    SpecializedMaterialPipelines,
    SpecializedMeshPipelineError,
};
use crate::tick::{newer_than, Tick};

verus! {

broadcast use vstd::std_specs::hash::group_hash_axioms;

/// A mesh asset prepared for the GPU.
#[derive(Clone, Copy, Debug, PartialEq, Eq, Structural)]
pub struct RenderMesh {
    /// The mesh pipeline key bits that its vertex layout implies.
    pub key_bits: u64,
    /// Its vertex layout, as a set of attribute bits.
    pub layout: u64,
    /// The slabs of the mesh allocator that hold its vertices and indices.
    pub vertex_slab: Option<u32>,
    pub index_slab: Option<u32>,
}

/// What the renderer knows of one mesh instance.
#[derive(Clone, Copy, Debug, PartialEq, Eq, Structural)]
pub struct RenderMeshQueueData {
    pub mesh_asset_id: u64,
    pub translation: Translation,
    pub key_inputs: InstanceKeyInputs,
    pub should_batch: bool,
    pub lightmap_slab_index: Option<u32>,
}

/// The material asset of each drawable entity.
pub struct RenderMaterialInstances {
    pub map: HashMap<u64, u64>,
}

/// What mesh and material preparation published for this frame.
pub struct RenderInputs {
    /// Mesh asset to prepared mesh.
    pub meshes: HashMap<u64, RenderMesh>,
    /// Entity to mesh instance.
    pub mesh_instances: HashMap<u64, RenderMeshQueueData>,
    /// Material asset to prepared material.
    pub materials: HashMap<u64, PreparedMaterial>,
    pub material_instances: RenderMaterialInstances,
}

/// A view as the phases see it.
pub struct ExtractedView {
    pub main_entity: u64,
    pub retained_view_entity: u64,
    pub rangefinder: ViewRangefinder3d,
    /// The visible mesh entities: (render entity, main entity).
    pub visible: Vec<(u64, u64)>,
}

/// The entities whose mesh or material changed this frame.
pub struct EntitiesNeedingSpecialization {
    pub entities: Vec<u64>,
}

/// When each entity last changed.
pub struct EntitySpecializationTicks {
    pub entities: HashMap<u64, Tick>,
}

/// Each view's key and when it last changed.
pub struct ViewSpecializationTicks {
    pub keys: HashMap<u64, u64>,
    pub ticks: HashMap<u64, Tick>,
}

/// The cache key of a (view, entity) pair.
pub open spec fn pair_key(view: u64, entity: u64) -> u128 {
    ((view as u128) << 64u128) | (entity as u128)
}

pub proof fn lemma_pair_key_injective(v1: u64, e1: u64, v2: u64, e2: u64)
    ensures
        pair_key(v1, e1) == pair_key(v2, e2) ==> v1 == v2 && e1 == e2,
{
    assert(((v1 as u128) << 64u128) | (e1 as u128) == ((v2 as u128) << 64u128) | (e2 as u128)
        ==> v1 == v2 && e1 == e2) by (bit_vector);
}

fn pair_key_of(view: u64, entity: u64) -> (r: u128)
    ensures
        r == pair_key(view, entity),
{
    ((view as u128) << 64u128) | (entity as u128)
}

/// For each (view, entity) pair, the tick and pipeline it was last
/// specialized with.
pub struct SpecializedMaterialPipelineCache {
    pub map: HashMap<u128, (Tick, u32)>,
}

impl SpecializedMaterialPipelineCache {
    pub open spec fn entry(&self, view: u64, entity: u64) -> Option<(Tick, u32)> {
        self.map@.get(pair_key(view, entity))
    }

    pub fn new() -> (r: Self)
        ensures
            forall|v: u64, e: u64| r.entry(v, e).is_none(),
    {
        SpecializedMaterialPipelineCache { map: HashMap::new() }
    }

    pub fn get(&self, view: u64, entity: u64) -> (r: Option<(Tick, u32)>)
        ensures
            r == self.entry(view, entity),
    {
        match self.map.get(&pair_key_of(view, entity)) {
            Some(x) => Some(*x),
            None => None,
        }
    }

    pub fn insert(&mut self, view: u64, entity: u64, value: (Tick, u32))
        ensures
            final(self).entry(view, entity) == Some(value),
            forall|v: u64, e: u64|
                #![trigger final(self).entry(v, e)]
                (v, e) != (view, entity) ==> final(self).entry(v, e) == old(self).entry(v, e),
    {
        self.map.insert(pair_key_of(view, entity), value);
        proof {
            assert forall|v: u64, e: u64| (v, e) != (view, entity) implies #[trigger] self.entry(v, e)
                == old(self).entry(v, e) by {
                lemma_pair_key_injective(v, e, view, entity);
            }
        }
    }

    /// Drops every entry of an entity, in every view.
    pub fn remove_entity(&mut self, views: &Vec<u64>, entity: u64)
        ensures
            forall|v: u64| #[trigger] views@.contains(v) ==> final(self).entry(v, entity).is_none(),
            forall|v: u64, e: u64|
                #![trigger final(self).entry(v, e)]
                !(e == entity && views@.contains(v)) ==> final(self).entry(v, e) == old(self).entry(v, e),
    {
        let mut i: usize = 0;
        while i < views.len()
            invariant
                i <= views@.len(),
                forall|k: int| 0 <= k < i ==> self.entry(#[trigger] views@[k], entity).is_none(),
                forall|v: u64, e: u64|
                    #![trigger self.entry(v, e)]
                    !(e == entity && views@.subrange(0, i as int).contains(v)) ==> self.entry(v, e)
                        == old(self).entry(v, e),
            decreases views@.len() - i,
        {
            let v = views[i];
            let ghost prev = self.map@;
            let ghost s0 = *self;
            self.map.remove(&pair_key_of(v, entity));
            proof {
                assert(views@.subrange(0, i + 1) =~= views@.subrange(0, i as int).push(v));
                crate::phase::lemma_push_contains(views@.subrange(0, i as int), v);
                assert forall|v2: u64, e2: u64| (v2, e2) != (v, entity) implies self.map@.get(
                    pair_key(v2, e2),
                ) == prev.get(pair_key(v2, e2)) by {
                    lemma_pair_key_injective(v2, e2, v, entity);
                }
                assert forall|v2: u64, e2: u64|
                    !(e2 == entity && views@.subrange(0, i + 1).contains(v2)) implies #[trigger] self.entry(
                    v2,
                    e2,
                ) == old(self).entry(v2, e2) by {
                    lemma_pair_key_injective(v2, e2, v, entity);
                    assert(views@.subrange(0, i + 1).contains(v));
                    assert(s0.entry(v2, e2) == old(self).entry(v2, e2));
                }
                assert forall|k: int| 0 <= k < i + 1 implies self.entry(
                    #[trigger] views@[k],
                    entity,
                ).is_none() by {
                    lemma_pair_key_injective(views@[k], entity, v, entity);
                }
            }
            i = i + 1;
        }
        proof {
            assert(views@.subrange(0, views@.len() as int) =~= views@);
            assert forall|v: u64| #[trigger] views@.contains(v) implies self.entry(
                v,
                entity,
            ).is_none() by {
                let k = choose|k: int| 0 <= k < views@.len() && views@[k] == v;
            }
        }
    }
}

/// Drops the entries of removed drawables in the given views.
pub fn drop_removed_entities(
    cache: &mut SpecializedMaterialPipelineCache,
    views: &Vec<u64>,
    removed: &Vec<u64>,
)
    ensures
        forall|v: u64, e: u64|
            #![trigger final(cache).entry(v, e)]
            final(cache).entry(v, e) == if removed@.contains(e) && views@.contains(v) {
                None
            } else {
                old(cache).entry(v, e)
            },
{
    let mut k: usize = 0;
    while k < removed.len()
        invariant
            k <= removed@.len(),
            forall|v: u64, e: u64|
                #![trigger cache.entry(v, e)]
                cache.entry(v, e) == if removed@.subrange(0, k as int).contains(e)
                    && views@.contains(v) {
                    None
                } else {
                    old(cache).entry(v, e)
                },
        decreases removed@.len() - k,
    {
        let e0 = removed[k];
        let ghost c0 = *cache;
        cache.remove_entity(views, e0);
        proof {
            assert(removed@.subrange(0, k + 1) =~= removed@.subrange(0, k as int).push(e0));
            crate::phase::lemma_push_contains(removed@.subrange(0, k as int), e0);
            assert forall|v: u64, e: u64|
                #![trigger cache.entry(v, e)]
                cache.entry(v, e) == if removed@.subrange(0, k + 1).contains(e) && views@.contains(
                    v,
                ) {
                    None
                } else {
                    old(cache).entry(v, e)
                } by {
                assert(c0.entry(v, e) == if removed@.subrange(0, k as int).contains(e)
                    && views@.contains(v) {
                    None::<(Tick, u32)>
                } else {
                    old(cache).entry(v, e)
                });
            }
        }
        k = k + 1;
    }
    assert(removed@.subrange(0, removed@.len() as int) =~= removed@);
}

/// A pair is specialized again when it never was, or when its view or its
/// entity changed after it last was.
pub open spec fn needs(
    view_tick: Option<Tick>,
    entity_tick: Option<Tick>,
    last: Option<(Tick, u32)>,
    this_run: Tick,
) -> bool {
    match last {
        None => true,
        Some((t, _)) => changed_since(view_tick, t, this_run) || changed_since(
            entity_tick,
            t,
            this_run,
        ),
    }
}

/// A recorded change after `t`; an unrecorded one counts as no change.
pub open spec fn changed_since(tick: Option<Tick>, t: Tick, this_run: Tick) -> bool {
    match tick {
        Some(x) => newer_than(x.tick, t.tick, this_run.tick),
        None => false,
    }
}

pub fn needs_specialization(
    view_tick: Option<Tick>,
    entity_tick: Option<Tick>,
    last: Option<(Tick, u32)>,
    this_run: Tick,
) -> (r: bool)
    ensures
        r == needs(view_tick, entity_tick, last, this_run),
{
    match last {
        None => true,
        Some((t, _)) => {
            let view_changed = match view_tick {
                Some(x) => x.is_newer_than(t, this_run),
                None => false,
            };
            let entity_changed = match entity_tick {
                Some(x) => x.is_newer_than(t, this_run),
                None => false,
            };
            view_changed || entity_changed
        },
    }
}

/// The key and vertex layout of an entity seen with the given view key,
/// when its material, mesh instance, mesh, prepared material and material
/// data are all present.
pub open spec fn resolve(
    inputs: RenderInputs,
    allocator: MaterialBindGroupAllocator,
    view_key: u64,
    e: u64,
) -> Option<(MaterialPipelineKey, u64)> {
    let mi = inputs.material_instances.map@;
    let ins = inputs.mesh_instances@;
    if mi.contains_key(e) && ins.contains_key(e) && inputs.meshes@.contains_key(
        ins[e].mesh_asset_id,
    ) && inputs.materials@.contains_key(mi[e]) && extra_data_of(
        allocator.slot_of(inputs.materials@[mi[e]].binding),
    ).is_some() {
        let mesh = inputs.meshes@[ins[e].mesh_asset_id];
        let mat = inputs.materials@[mi[e]];
        Some(
            (
                MaterialPipelineKey {
                    mesh_key: mesh_key_of(
                        view_key,
                        mesh.key_bits,
                        mat.properties.mesh_pipeline_key_bits,
                        mat.properties.alpha_mode,
                        ins[e].key_inputs,
                    ),
                    bind_group_data: extra_data_of(allocator.slot_of(mat.binding)).unwrap(),
                },
                mesh.layout,
            ),
        )
    } else {
        None
    }
}

fn resolve_entity(
    inputs: &RenderInputs,
    allocator: &MaterialBindGroupAllocator,
    view_key: u64,
    e: u64,
) -> (r: Option<(MaterialPipelineKey, u64)>)
    ensures
        r == resolve(*inputs, *allocator, view_key, e),
{
    let material_asset_id = match inputs.material_instances.map.get(&e) {
        Some(m) => *m,
        None => {
            return None;
        },
    };
    let mesh_instance = match inputs.mesh_instances.get(&e) {
        Some(m) => *m,
        None => {
            return None;
        },
    };
    let mesh = match inputs.meshes.get(&mesh_instance.mesh_asset_id) {
        Some(m) => *m,
        None => {
            return None;
        },
    };
    let material = match inputs.materials.get(&material_asset_id) {
        Some(m) => *m,
        None => {
            return None;
        },
    };
    let extra = match allocator.extra_data(material.binding) {
        Some(x) => x,
        None => {
            return None;
        },
    };
    let mk = mesh_key(
        view_key,
        mesh.key_bits,
        material.properties.mesh_pipeline_key_bits,
        material.properties.alpha_mode,
        &mesh_instance.key_inputs,
    );
    Some((MaterialPipelineKey { mesh_key: mk, bind_group_data: extra }, mesh.layout))
}

/// The cache entry of a pair after specialization: a fresh one when the
/// pair needed it and its data resolved to a key that the material
/// accepts, else the entry it had.
pub open spec fn outcome(
    last: Option<(Tick, u32)>,
    needed: bool,
    resolved: Option<(MaterialPipelineKey, u64)>,
    pipeline: MaterialPipeline,
    pipelines: SpecializedMaterialPipelines,
    this_run: Tick,
) -> Option<(Tick, u32)> {
    match resolved {
        Some((key, layout)) => if needed && missing_attributes(pipeline, layout) == 0 {
            Some((this_run, pipelines.id_of(key, layout).unwrap()))
        } else {
            last
        },
        None => last,
    }
}

/// An entry stored in this run needs no specialization again in it.
pub proof fn lemma_current_entry_unchanged(
    view_tick: Option<Tick>,
    entity_tick: Option<Tick>,
    this_run: Tick,
)
    ensures
        forall|id: u32| !needs(view_tick, entity_tick, Some((this_run, id)), this_run),
{
    if let Some(x) = view_tick {
        crate::tick::lemma_nothing_newer_than_current(x.tick, this_run.tick);
    }
    if let Some(x) = entity_tick {
        crate::tick::lemma_nothing_newer_than_current(x.tick, this_run.tick);
    }
}

/// Whether `outcome` stores a fresh entry.
pub open spec fn succeeds(
    needed: bool,
    resolved: Option<(MaterialPipelineKey, u64)>,
    pipeline: MaterialPipeline,
) -> bool {
    match resolved {
        Some((_, layout)) => needed && missing_attributes(pipeline, layout) == 0,
        None => false,
    }
}

/// The outcome of a pair does not change as the variant map grows, once
/// the pair's key is in it.
proof fn lemma_outcome_stable(
    last: Option<(Tick, u32)>,
    needed: bool,
    resolved: Option<(MaterialPipelineKey, u64)>,
    pipeline: MaterialPipeline,
    p1: SpecializedMaterialPipelines,
    p2: SpecializedMaterialPipelines,
    this_run: Tick,
)
    requires
        succeeds(needed, resolved, pipeline) ==> p1.id_of(resolved.unwrap().0, resolved.unwrap().1).is_some(),
        forall|k: MaterialPipelineKey, l: u64|
            p1.id_of(k, l).is_some() ==> #[trigger] p2.id_of(k, l) == p1.id_of(k, l),
    ensures
        outcome(last, needed, resolved, pipeline, p1, this_run) == outcome(
            last,
            needed,
            resolved,
            pipeline,
            p2,
            this_run,
        ),
{
    if succeeds(needed, resolved, pipeline) {
        assert(p2.id_of(resolved.unwrap().0, resolved.unwrap().1) == p1.id_of(
            resolved.unwrap().0,
            resolved.unwrap().1,
        ));
    }
}

/// Specializes one (view, entity) pair when it needs it: resolves its key,
/// finds or queues its pipeline, and stores the pipeline with the current
/// tick. Missing data leaves the entry as it was, to be retried; a key that
/// the material declines leaves it too, and the refusal is returned.
pub fn specialize_entity(
    view_entity: u64,
    view_key: u64,
    view_tick: Option<Tick>,
    entity: u64,
    entity_tick: Option<Tick>,
    inputs: &RenderInputs,
    allocator: &MaterialBindGroupAllocator,
    cache: &mut SpecializedMaterialPipelineCache,
    pipelines: &mut SpecializedMaterialPipelines,
    pipeline_cache: &mut PipelineCache,
    pipeline: &MaterialPipeline,
    this_run: Tick,
) -> (r: Option<SpecializedMeshPipelineError>)
    requires
        old(pipelines).wf(*old(pipeline_cache)),
        old(pipelines).built_by(*pipeline),
        old(pipeline_cache).wf(),
        old(pipeline_cache).len() < u32::MAX,
    ensures
        final(pipelines).wf(*final(pipeline_cache)),
        final(pipelines).built_by(*pipeline),
        final(pipeline_cache).wf(),
        final(pipeline_cache).len() <= old(pipeline_cache).len() + 1,
        ({
            let needed = needs(view_tick, entity_tick, old(cache).entry(view_entity, entity), this_run);
            let resolved = resolve(*inputs, *allocator, view_key, entity);
            ||| (final(pipelines).entries@ == old(pipelines).entries@ && final(pipeline_cache).states@ == old(pipeline_cache).states@ && final(pipeline_cache).descriptors@ == old(pipeline_cache).descriptors@)
            ||| (succeeds(needed, resolved, *pipeline) && old(pipelines).id_of(
                resolved.unwrap().0,
                resolved.unwrap().1,
            ).is_none() && final(pipelines).entries@ == old(pipelines).entries@.push(
                crate::pipeline::VariantEntry {
                    key: resolved.unwrap().0,
                    vertex_layout: resolved.unwrap().1,
                    id: old(pipeline_cache).len() as u32,
                },
            ) && final(pipeline_cache).states@ == old(pipeline_cache).states@.push(
                crate::pipeline::PipelineState::Pending,
            ) && final(pipeline_cache).descriptors@.drop_last() == old(pipeline_cache).descriptors@)
        }),
        !needs(view_tick, entity_tick, old(cache).entry(view_entity, entity), this_run) ==> {
            &&& *final(pipelines) == *old(pipelines)
            &&& *final(pipeline_cache) == *old(pipeline_cache)
            &&& *final(cache) == *old(cache)
        },
        forall|k: MaterialPipelineKey, l: u64|
            old(pipelines).id_of(k, l).is_some() ==> #[trigger] final(pipelines).id_of(k, l) == old(pipelines).id_of(k, l),
        ({
            let last = old(cache).entry(view_entity, entity);
            let needed = needs(view_tick, entity_tick, last, this_run);
            let resolved = resolve(*inputs, *allocator, view_key, entity);
            &&& final(cache).entry(view_entity, entity) == outcome(
                last,
                needed,
                resolved,
                *pipeline,
                *final(pipelines),
                this_run,
            )
            &&& succeeds(needed, resolved, *pipeline) ==> final(pipelines).id_of(
                resolved.unwrap().0,
                resolved.unwrap().1,
            ).is_some()
            &&& r == (match resolved {
                Some((_, layout)) => if needed && missing_attributes(*pipeline, layout) != 0 {
                    Some(
                        SpecializedMeshPipelineError::MissingVertexAttribute(
                            missing_attributes(*pipeline, layout),
                        ),
                    )
                } else {
                    None
                },
                None => None,
            })
        }),
        forall|v: u64, e: u64|
            #![trigger final(cache).entry(v, e)]
            (v, e) != (view_entity, entity) ==> final(cache).entry(v, e) == old(cache).entry(v, e),
{
    let last = cache.get(view_entity, entity);
    if !needs_specialization(view_tick, entity_tick, last, this_run) {
        return None;
    }
    let (key, layout) = match resolve_entity(inputs, allocator, view_key, entity) {
        Some(x) => x,
        None => {
            return None;
        },
    };
    proof {
        if old(pipelines).id_of(key, layout).is_some() {
            old(pipelines).lemma_built_by_accepts(*pipeline, key, layout);
        }
    }
    match pipelines.specialize(pipeline_cache, pipeline, key, layout) {
        Ok(id) => {
            cache.insert(view_entity, entity, (this_run, id));
            None
        },
        Err(e) => Some(e),
    }
}

/// The view is rendered with phases and its key is known.
pub open spec fn view_active(
    view: ExtractedView,
    phases: crate::phase::ViewRenderPhases,
    view_ticks: ViewSpecializationTicks,
) -> bool {
    phases.views@.contains_key(view.retained_view_entity) && view_ticks.keys@.contains_key(
        view.main_entity,
    )
}

pub open spec fn sees(view: ExtractedView, e: u64, upto: int) -> bool {
    exists|j: int| 0 <= j < upto && j < view.visible@.len() && #[trigger] view.visible@[j].1 == e
}

/// Among the first `i` views, and the first `j` visible entities of view
/// `i`, an active view `v` sees `e`.
pub open spec fn visited_upto(
    views: Seq<ExtractedView>,
    phases: crate::phase::ViewRenderPhases,
    view_ticks: ViewSpecializationTicks,
    i: int,
    j: int,
    v: u64,
    e: u64,
) -> bool {
    (exists|k: int|
        0 <= k < i && k < views.len() && #[trigger] views[k].main_entity == v && view_active(
            views[k],
            phases,
            view_ticks,
        ) && sees(views[k], e, views[k].visible@.len() as int)) || (0 <= i < views.len()
        && views[i].main_entity == v && view_active(views[i], phases, view_ticks) && sees(
        views[i],
        e,
        j,
    ))
}

/// Some active view `v` of `views` sees `e`.
pub open spec fn visited(
    views: Seq<ExtractedView>,
    phases: crate::phase::ViewRenderPhases,
    view_ticks: ViewSpecializationTicks,
    v: u64,
    e: u64,
) -> bool {
    visited_upto(views, phases, view_ticks, views.len() as int, 0, v, e)
}

/// The pair needs specialization and resolves, but the material declines
/// its vertex layout.
pub open spec fn pass_rejects(
    last: Option<(Tick, u32)>,
    inputs: RenderInputs,
    allocator: MaterialBindGroupAllocator,
    view_ticks: ViewSpecializationTicks,
    entity_ticks: EntitySpecializationTicks,
    pipeline: MaterialPipeline,
    this_run: Tick,
    v: u64,
    e: u64,
) -> bool {
    match resolve(inputs, allocator, view_ticks.keys@[v], e) {
        Some((_, layout)) => needs(view_ticks.ticks@.get(v), entity_ticks.entities@.get(e), last, this_run)
            && missing_attributes(pipeline, layout) != 0,
        None => false,
    }
}

pub open spec fn reported(
    errors: Seq<(u64, u64, SpecializedMeshPipelineError)>,
    v: u64,
    e: u64,
) -> bool {
    exists|k: int| 0 <= k < errors.len() && #[trigger] errors[k].0 == v && errors[k].1 == e
}

/// A variant that the pass created: its key and layout are those of a
/// visited pair that succeeded and whose key had no variant before.
pub open spec fn new_variant(
    views: Seq<ExtractedView>,
    phases: crate::phase::ViewRenderPhases,
    view_ticks: ViewSpecializationTicks,
    entity_ticks: EntitySpecializationTicks,
    inputs: RenderInputs,
    allocator: MaterialBindGroupAllocator,
    pipeline: MaterialPipeline,
    before: SpecializedMaterialPipelineCache,
    pipelines_before: SpecializedMaterialPipelines,
    this_run: Tick,
    entry: crate::pipeline::VariantEntry,
) -> bool {
    exists|v: u64, e: u64|
        #[trigger] visited(views, phases, view_ticks, v, e) && pass_succeeds(
            before.entry(v, e),
            inputs,
            allocator,
            view_ticks,
            entity_ticks,
            pipeline,
            this_run,
            v,
            e,
        ) && resolve(inputs, allocator, view_ticks.keys@[v], e) == Some(
            (entry.key, entry.vertex_layout),
        ) && pipelines_before.id_of(entry.key, entry.vertex_layout).is_none()
}

proof fn lemma_visited_full(
    views: Seq<ExtractedView>,
    phases: crate::phase::ViewRenderPhases,
    view_ticks: ViewSpecializationTicks,
    i: int,
    j: int,
    v: u64,
    e: u64,
)
    requires
        visited_upto(views, phases, view_ticks, i, j, v, e),
    ensures
        visited(views, phases, view_ticks, v, e),
{
    if exists|k: int|
        0 <= k < i && k < views.len() && #[trigger] views[k].main_entity == v && view_active(
            views[k],
            phases,
            view_ticks,
        ) && sees(views[k], e, views[k].visible@.len() as int) {
        let k = choose|k: int|
            0 <= k < i && k < views.len() && #[trigger] views[k].main_entity == v && view_active(
                views[k],
                phases,
                view_ticks,
            ) && sees(views[k], e, views[k].visible@.len() as int);
        assert(views[k].main_entity == v);
    } else {
        let t = choose|t: int|
            0 <= t < j && t < views[i].visible@.len() && #[trigger] views[i].visible@[t].1 == e;
        assert(sees(views[i], e, views[i].visible@.len() as int));
        assert(views[i].main_entity == v);
    }
}

/// The number of visible entries of all views.
pub open spec fn total_visible(views: Seq<ExtractedView>) -> nat
    decreases views.len(),
{
    if views.len() == 0 {
        0
    } else {
        total_visible(views.drop_last()) + views.last().visible@.len()
    }
}

/// The pair's entry after a pass, given the entry before it.
pub open spec fn pass_outcome(
    last: Option<(Tick, u32)>,
    inputs: RenderInputs,
    allocator: MaterialBindGroupAllocator,
    view_ticks: ViewSpecializationTicks,
    entity_ticks: EntitySpecializationTicks,
    pipeline: MaterialPipeline,
    pipelines: SpecializedMaterialPipelines,
    this_run: Tick,
    v: u64,
    e: u64,
) -> Option<(Tick, u32)> {
    outcome(
        last,
        needs(view_ticks.ticks@.get(v), entity_ticks.entities@.get(e), last, this_run),
        resolve(inputs, allocator, view_ticks.keys@[v], e),
        pipeline,
        pipelines,
        this_run,
    )
}

pub open spec fn pass_succeeds(
    last: Option<(Tick, u32)>,
    inputs: RenderInputs,
    allocator: MaterialBindGroupAllocator,
    view_ticks: ViewSpecializationTicks,
    entity_ticks: EntitySpecializationTicks,
    pipeline: MaterialPipeline,
    this_run: Tick,
    v: u64,
    e: u64,
) -> bool {
    succeeds(
        needs(view_ticks.ticks@.get(v), entity_ticks.entities@.get(e), last, this_run),
        resolve(inputs, allocator, view_ticks.keys@[v], e),
        pipeline,
    )
}

proof fn lemma_total_visible_prefix(s: Seq<ExtractedView>, i: int)
    requires
        0 <= i <= s.len(),
    ensures
        total_visible(s.subrange(0, i)) <= total_visible(s),
        i < s.len() ==> total_visible(s.subrange(0, i + 1)) == total_visible(s.subrange(0, i))
            + s[i].visible@.len(),
    decreases s.len(),
{
    if i < s.len() {
        assert(s.subrange(0, i + 1).drop_last() =~= s.subrange(0, i));
    }
    if i == s.len() {
        assert(s.subrange(0, i) =~= s);
    } else {
        lemma_total_visible_prefix(s.drop_last(), i);
        assert(s.drop_last().subrange(0, i) =~= s.subrange(0, i));
    }
}

proof fn lemma_visited_step(
    views: Seq<ExtractedView>,
    phases: crate::phase::ViewRenderPhases,
    view_ticks: ViewSpecializationTicks,
    i: int,
    j: int,
    v: u64,
    e: u64,
)
    requires
        0 <= i < views.len(),
        0 <= j < views[i].visible@.len(),
        view_active(views[i], phases, view_ticks),
    ensures
        visited_upto(views, phases, view_ticks, i, j + 1, v, e) == (visited_upto(
            views,
            phases,
            view_ticks,
            i,
            j,
            v,
            e,
        ) || (v == views[i].main_entity && e == views[i].visible@[j].1)),
{
    if v == views[i].main_entity && e == views[i].visible@[j].1 {
        assert(sees(views[i], e, j + 1));
    }
    if sees(views[i], e, j + 1) && !sees(views[i], e, j) {
        let t = choose|t: int|
            0 <= t < j + 1 && t < views[i].visible@.len() && #[trigger] views[i].visible@[t].1 == e;
        assert(t == j);
    }
    if sees(views[i], e, j) {
        let t = choose|t: int|
            0 <= t < j && t < views[i].visible@.len() && #[trigger] views[i].visible@[t].1 == e;
        assert(sees(views[i], e, j + 1));
    }
}

proof fn lemma_visited_next_view(
    views: Seq<ExtractedView>,
    phases: crate::phase::ViewRenderPhases,
    view_ticks: ViewSpecializationTicks,
    i: int,
    v: u64,
    e: u64,
)
    requires
        0 <= i < views.len(),
    ensures
        visited_upto(views, phases, view_ticks, i + 1, 0, v, e) == (if view_active(
            views[i],
            phases,
            view_ticks,
        ) {
            visited_upto(views, phases, view_ticks, i, views[i].visible@.len() as int, v, e)
        } else {
            visited_upto(views, phases, view_ticks, i, 0, v, e)
        }),
{
    assert(!sees(views[i], e, 0));
    if visited_upto(views, phases, view_ticks, i + 1, 0, v, e) {
        let k = choose|k: int|
            0 <= k < i + 1 && k < views.len() && #[trigger] views[k].main_entity == v
                && view_active(views[k], phases, view_ticks) && sees(
                views[k],
                e,
                views[k].visible@.len() as int,
            );
    }
}

/// Specializes every pair of an active view and an entity it sees: views
/// without phases or without a known key are skipped. Each visited pair
/// ends with `pass_outcome` of the entry it had; every other pair keeps
/// its entry.
pub fn specialize_material_meshes(
    inputs: &RenderInputs,
    allocator: &MaterialBindGroupAllocator,
    phases: &crate::phase::ViewRenderPhases,
    views: &Vec<ExtractedView>,
    view_ticks: &ViewSpecializationTicks,
    entity_ticks: &EntitySpecializationTicks,
    cache: &mut SpecializedMaterialPipelineCache,
    pipelines: &mut SpecializedMaterialPipelines,
    pipeline: &MaterialPipeline,
    pipeline_cache: &mut PipelineCache,
    this_run: Tick,
) -> (errors: Vec<(u64, u64, SpecializedMeshPipelineError)>)
    requires
        old(pipelines).wf(*old(pipeline_cache)),
        old(pipelines).built_by(*pipeline),
        old(pipeline_cache).wf(),
        old(pipeline_cache).len() + total_visible(views@) < u32::MAX,
    ensures
        final(pipelines).wf(*final(pipeline_cache)),
        final(pipelines).built_by(*pipeline),
        final(pipeline_cache).wf(),
        forall|k: MaterialPipelineKey, l: u64|
            old(pipelines).id_of(k, l).is_some() ==> #[trigger] final(pipelines).id_of(k, l) == old(pipelines).id_of(k, l),
        forall|v: u64, e: u64|
            #![trigger final(cache).entry(v, e)]
            final(cache).entry(v, e) == if visited(views@, *phases, *view_ticks, v, e) {
                pass_outcome(
                    old(cache).entry(v, e),
                    *inputs,
                    *allocator,
                    *view_ticks,
                    *entity_ticks,
                    *pipeline,
                    *final(pipelines),
                    this_run,
                    v,
                    e,
                )
            } else {
                old(cache).entry(v, e)
            },
        forall|v: u64, e: u64|
            #[trigger] reported(errors@, v, e) == (visited(views@, *phases, *view_ticks, v, e)
                && pass_rejects(
                old(cache).entry(v, e),
                *inputs,
                *allocator,
                *view_ticks,
                *entity_ticks,
                *pipeline,
                this_run,
                v,
                e,
            )),
        forall|v: u64, e: u64|
            #![trigger final(cache).entry(v, e)]
            visited(views@, *phases, *view_ticks, v, e) && pass_succeeds(
                old(cache).entry(v, e),
                *inputs,
                *allocator,
                *view_ticks,
                *entity_ticks,
                *pipeline,
                this_run,
                v,
                e,
            ) ==> final(pipelines).id_of(
                resolve(*inputs, *allocator, view_ticks.keys@[v], e).unwrap().0,
                resolve(*inputs, *allocator, view_ticks.keys@[v], e).unwrap().1,
            ) == Some(final(cache).entry(v, e).unwrap().1),
        old(pipelines).entries@.len() <= final(pipelines).entries@.len(),
        final(pipelines).entries@.subrange(0, old(pipelines).entries@.len() as int) == old(
            pipelines).entries@,
        old(pipeline_cache).states@.len() <= final(pipeline_cache).states@.len(),
        final(pipeline_cache).states@.subrange(0, old(pipeline_cache).states@.len() as int) == old(
            pipeline_cache).states@,
        final(pipeline_cache).descriptors@.subrange(0, old(pipeline_cache).states@.len() as int)
            == old(pipeline_cache).descriptors@,
        final(pipeline_cache).states@.len() - old(pipeline_cache).states@.len() == final(
            pipelines).entries@.len() - old(pipelines).entries@.len(),
        forall|idx: int|
            old(pipelines).entries@.len() <= idx < final(pipelines).entries@.len()
                ==> #[trigger] new_variant(
                views@,
                *phases,
                *view_ticks,
                *entity_ticks,
                *inputs,
                *allocator,
                *pipeline,
                *old(cache),
                *old(pipelines),
                this_run,
                final(pipelines).entries@[idx],
            ),
        (forall|v: u64, e: u64|
            #[trigger] visited(views@, *phases, *view_ticks, v, e) ==> !pass_succeeds(
                old(cache).entry(v, e),
                *inputs,
                *allocator,
                *view_ticks,
                *entity_ticks,
                *pipeline,
                this_run,
                v,
                e,
            )) ==> {
            &&& final(pipelines).entries@ == old(pipelines).entries@
            &&& final(pipeline_cache).states@ == old(pipeline_cache).states@
            &&& final(pipeline_cache).descriptors@ == old(pipeline_cache).descriptors@
        },
        forall|k: int|
            0 <= k < errors@.len() ==> #[trigger] errors@[k].2
                == SpecializedMeshPipelineError::MissingVertexAttribute(
                missing_attributes(
                    *pipeline,
                    resolve(*inputs, *allocator, view_ticks.keys@[errors@[k].0], errors@[k].1).unwrap().1,
                ),
            ),
{
    let mut errors: Vec<(u64, u64, SpecializedMeshPipelineError)> = Vec::new();
    let ghost c0 = *old(cache);
    let ghost p0 = *old(pipelines);
    let ghost n0 = old(pipeline_cache).len();
    let mut i: usize = 0;
    while i < views.len()
        invariant
            i <= views@.len(),
            pipelines.wf(*pipeline_cache),
            pipelines.built_by(*pipeline),
            pipeline_cache.wf(),
            pipeline_cache.len() <= n0 + total_visible(views@.subrange(0, i as int)),
            p0.entries@.len() <= pipelines.entries@.len(),
            pipelines.entries@.subrange(0, p0.entries@.len() as int) == p0.entries@,
            n0 <= pipeline_cache.states@.len(),
            pipeline_cache.states@.subrange(0, n0 as int) == old(pipeline_cache).states@,
            pipeline_cache.descriptors@.subrange(0, n0 as int) == old(pipeline_cache).descriptors@,
            pipeline_cache.states@.len() - n0 == pipelines.entries@.len() - p0.entries@.len(),
            forall|idx: int|
                p0.entries@.len() <= idx < pipelines.entries@.len() ==> #[trigger] new_variant(
                    views@,
                    *phases,
                    *view_ticks,
                    *entity_ticks,
                    *inputs,
                    *allocator,
                    *pipeline,
                    c0,
                    p0,
                    this_run,
                    pipelines.entries@[idx],
                ),
            n0 + total_visible(views@) < u32::MAX,
            forall|v: u64, e: u64|
                #[trigger] reported(errors@, v, e) == (visited_upto(
                    views@,
                    *phases,
                    *view_ticks,
                    i as int,
                    0,
                    v,
                    e,
                ) && pass_rejects(
                    c0.entry(v, e),
                    *inputs,
                    *allocator,
                    *view_ticks,
                    *entity_ticks,
                    *pipeline,
                    this_run,
                    v,
                    e,
                )),
            forall|k: int|
                0 <= k < errors@.len() ==> #[trigger] errors@[k].2
                    == SpecializedMeshPipelineError::MissingVertexAttribute(
                    missing_attributes(
                        *pipeline,
                        resolve(
                            *inputs,
                            *allocator,
                            view_ticks.keys@[errors@[k].0],
                            errors@[k].1,
                        ).unwrap().1,
                    ),
                ),
            forall|k: MaterialPipelineKey, l: u64|
                p0.id_of(k, l).is_some() ==> #[trigger] pipelines.id_of(k, l) == p0.id_of(k, l),
            forall|v: u64, e: u64|
                #![trigger cache.entry(v, e)]
                cache.entry(v, e) == if visited_upto(
                    views@,
                    *phases,
                    *view_ticks,
                    i as int,
                    0,
                    v,
                    e,
                ) {
                    pass_outcome(
                        c0.entry(v, e),
                        *inputs,
                        *allocator,
                        *view_ticks,
                        *entity_ticks,
                        *pipeline,
                        *pipelines,
                        this_run,
                        v,
                        e,
                    )
                } else {
                    c0.entry(v, e)
                },
            forall|v: u64, e: u64|
                #![trigger visited_upto(views@, *phases, *view_ticks, i as int, 0, v, e)]
                visited_upto(views@, *phases, *view_ticks, i as int, 0, v, e) && pass_succeeds(
                    c0.entry(v, e),
                    *inputs,
                    *allocator,
                    *view_ticks,
                    *entity_ticks,
                    *pipeline,
                    this_run,
                    v,
                    e,
                ) ==> pipelines.id_of(
                    resolve(*inputs, *allocator, view_ticks.keys@[v], e).unwrap().0,
                    resolve(*inputs, *allocator, view_ticks.keys@[v], e).unwrap().1,
                ).is_some(),
        decreases views@.len() - i,
    {
        proof {
            lemma_total_visible_prefix(views@, i as int);
            lemma_total_visible_prefix(views@, i as int + 1);
        }
        let view = &views[i];
        let active = phases.contains(view.retained_view_entity)
            && view_ticks.keys.contains_key(&view.main_entity);
        if active {
            assert(view_active(views@[i as int], *phases, *view_ticks));
            let view_key = *view_ticks.keys.get(&view.main_entity).unwrap();
            let view_tick = match view_ticks.ticks.get(&view.main_entity) {
                Some(t) => Some(*t),
                None => None,
            };
            let mut j: usize = 0;
            while j < view.visible.len()
                invariant
                    0 <= i < views@.len(),
                    *view == views@[i as int],
                    view_active(*view, *phases, *view_ticks),
                    view_key == view_ticks.keys@[view.main_entity],
                    view_tick == view_ticks.ticks@.get(view.main_entity),
                    j <= view.visible@.len(),
                    pipelines.wf(*pipeline_cache),
                    pipelines.built_by(*pipeline),
                    pipeline_cache.wf(),
                    pipeline_cache.len() <= n0 + total_visible(views@.subrange(0, i as int)) + j,
            p0.entries@.len() <= pipelines.entries@.len(),
                    pipelines.entries@.subrange(0, p0.entries@.len() as int) == p0.entries@,
                    n0 <= pipeline_cache.states@.len(),
                    pipeline_cache.states@.subrange(0, n0 as int) == old(pipeline_cache).states@,
                    pipeline_cache.descriptors@.subrange(0, n0 as int) == old(pipeline_cache).descriptors@,
                    pipeline_cache.states@.len() - n0 == pipelines.entries@.len() - p0.entries@.len(),
                    forall|idx: int|
                        p0.entries@.len() <= idx < pipelines.entries@.len() ==> #[trigger] new_variant(
                            views@,
                            *phases,
                            *view_ticks,
                            *entity_ticks,
                            *inputs,
                            *allocator,
                            *pipeline,
                            c0,
                            p0,
                            this_run,
                            pipelines.entries@[idx],
                        ),
            forall|v: u64, e: u64|
                        #[trigger] reported(errors@, v, e) == (visited_upto(
                            views@,
                            *phases,
                            *view_ticks,
                            i as int,
                            j as int,
                            v,
                            e,
                        ) && pass_rejects(
                            c0.entry(v, e),
                            *inputs,
                            *allocator,
                            *view_ticks,
                            *entity_ticks,
                            *pipeline,
                            this_run,
                            v,
                            e,
                        )),
                    forall|k: int|
                        0 <= k < errors@.len() ==> #[trigger] errors@[k].2
                            == SpecializedMeshPipelineError::MissingVertexAttribute(
                            missing_attributes(
                                *pipeline,
                                resolve(
                                    *inputs,
                                    *allocator,
                                    view_ticks.keys@[errors@[k].0],
                                    errors@[k].1,
                                ).unwrap().1,
                            ),
                        ),
                    n0 + total_visible(views@.subrange(0, i as int)) + view.visible@.len()
                        < u32::MAX,
                    forall|k: MaterialPipelineKey, l: u64|
                        p0.id_of(k, l).is_some() ==> #[trigger] pipelines.id_of(k, l) == p0.id_of(
                            k,
                            l,
                        ),
                    forall|v: u64, e: u64|
                        #![trigger cache.entry(v, e)]
                        cache.entry(v, e) == if visited_upto(
                            views@,
                            *phases,
                            *view_ticks,
                            i as int,
                            j as int,
                            v,
                            e,
                        ) {
                            pass_outcome(
                                c0.entry(v, e),
                                *inputs,
                                *allocator,
                                *view_ticks,
                                *entity_ticks,
                                *pipeline,
                                *pipelines,
                                this_run,
                                v,
                                e,
                            )
                        } else {
                            c0.entry(v, e)
                        },
                    forall|v: u64, e: u64|
                        #![trigger visited_upto(views@, *phases, *view_ticks, i as int, j as int, v, e)]
                        visited_upto(views@, *phases, *view_ticks, i as int, j as int, v, e)
                            && pass_succeeds(
                            c0.entry(v, e),
                            *inputs,
                            *allocator,
                            *view_ticks,
                            *entity_ticks,
                            *pipeline,
                            this_run,
                            v,
                            e,
                        ) ==> pipelines.id_of(
                            resolve(*inputs, *allocator, view_ticks.keys@[v], e).unwrap().0,
                            resolve(*inputs, *allocator, view_ticks.keys@[v], e).unwrap().1,
                        ).is_some(),
                decreases view.visible@.len() - j,
            {
                let e0 = view.visible[j].1;
                assert(views@[i as int].visible@[j as int].1 == e0);
                let entity_tick = match entity_ticks.entities.get(&e0) {
                    Some(t) => Some(*t),
                    None => None,
                };
                let ghost cb = *cache;
                let ghost pb = *pipelines;
                let ghost v0 = view.main_entity;
                let ghost eb = errors@;
                let ghost pb_states = pipeline_cache.states@;
                let ghost pb_desc = pipeline_cache.descriptors@;
                let rejected = specialize_entity(
                    view.main_entity,
                    view_key,
                    view_tick,
                    e0,
                    entity_tick,
                    inputs,
                    allocator,
                    cache,
                    pipelines,
                    pipeline_cache,
                    pipeline,
                    this_run,
                );
                if let Some(err) = rejected {
                    errors.push((view.main_entity, e0, err));
                }
                proof {
                    if pipelines.entries@ != pb.entries@ {
                        let ghost before = visited_upto(views@, *phases, *view_ticks, i as int, j as int, v0, e0);
                        lemma_visited_step(views@, *phases, *view_ticks, i as int, j as int, v0, e0);
                        lemma_visited_full(views@, *phases, *view_ticks, i as int, j + 1, v0, e0);
                        if before {
                            assert(cb.entry(v0, e0) == pass_outcome(
                                c0.entry(v0, e0),
                                *inputs,
                                *allocator,
                                *view_ticks,
                                *entity_ticks,
                                *pipeline,
                                pb,
                                this_run,
                                v0,
                                e0,
                            ));
                        } else {
                            assert(cb.entry(v0, e0) == c0.entry(v0, e0));
                        }
                        let r = resolve(*inputs, *allocator, view_key, e0).unwrap();
                        if p0.id_of(r.0, r.1).is_some() {
                            assert(pb.id_of(r.0, r.1) == p0.id_of(r.0, r.1));
                        }
                        assert(new_variant(
                            views@,
                            *phases,
                            *view_ticks,
                            *entity_ticks,
                            *inputs,
                            *allocator,
                            *pipeline,
                            c0,
                            p0,
                            this_run,
                            pipelines.entries@.last(),
                        ));
                        assert(pipelines.entries@.subrange(0, p0.entries@.len() as int)
                            =~= pb.entries@.subrange(0, p0.entries@.len() as int));
                        assert(pipeline_cache.states@.subrange(0, n0 as int)
                            =~= pb_states.subrange(0, n0 as int));
                        assert(pipeline_cache.descriptors@.subrange(0, n0 as int)
                            =~= pb_desc.subrange(0, n0 as int));
                    }
                    let ghost pushed = errors@.len() > eb.len();
                    assert forall|k: int| 0 <= k < errors@.len() implies #[trigger] errors@[k].2
                        == SpecializedMeshPipelineError::MissingVertexAttribute(
                        missing_attributes(
                            *pipeline,
                            resolve(
                                *inputs,
                                *allocator,
                                view_ticks.keys@[errors@[k].0],
                                errors@[k].1,
                            ).unwrap().1,
                        ),
                    ) by {
                        if k < eb.len() {
                            assert(errors@[k] == eb[k]);
                        }
                    }
                    assert forall|v: u64, e: u64|
                        #[trigger] reported(errors@, v, e) == (reported(eb, v, e) || (pushed && v
                            == v0 && e == e0)) by {
                        if reported(eb, v, e) {
                            let k = choose|k: int|
                                0 <= k < eb.len() && #[trigger] eb[k].0 == v && eb[k].1 == e;
                            assert(errors@[k] == eb[k]);
                        }
                        if pushed && v == v0 && e == e0 {
                            assert(errors@[eb.len() as int].0 == v);
                        }
                        if reported(errors@, v, e) {
                            let k = choose|k: int|
                                0 <= k < errors@.len() && #[trigger] errors@[k].0 == v
                                    && errors@[k].1 == e;
                            if k < eb.len() {
                                assert(eb[k] == errors@[k]);
                            }
                        }
                    }
                    assert forall|v: u64, e: u64|
                        #[trigger] reported(errors@, v, e) == (visited_upto(
                            views@,
                            *phases,
                            *view_ticks,
                            i as int,
                            j + 1,
                            v,
                            e,
                        ) && pass_rejects(
                            c0.entry(v, e),
                            *inputs,
                            *allocator,
                            *view_ticks,
                            *entity_ticks,
                            *pipeline,
                            this_run,
                            v,
                            e,
                        )) by {
                        lemma_visited_step(views@, *phases, *view_ticks, i as int, j as int, v, e);
                        assert(reported(eb, v, e) == (visited_upto(
                            views@,
                            *phases,
                            *view_ticks,
                            i as int,
                            j as int,
                            v,
                            e,
                        ) && pass_rejects(
                            c0.entry(v, e),
                            *inputs,
                            *allocator,
                            *view_ticks,
                            *entity_ticks,
                            *pipeline,
                            this_run,
                            v,
                            e,
                        )));
                        if v == v0 && e == e0 {
                            let before = visited_upto(views@, *phases, *view_ticks, i as int, j as int, v, e);
                            if !before {
                                assert(cb.entry(v, e) == c0.entry(v, e));
                            } else {
                                assert(cb.entry(v, e) == pass_outcome(
                                    c0.entry(v, e),
                                    *inputs,
                                    *allocator,
                                    *view_ticks,
                                    *entity_ticks,
                                    *pipeline,
                                    pb,
                                    this_run,
                                    v,
                                    e,
                                ));
                            }
                        }
                    }
                    assert forall|v: u64, e: u64|
                        visited_upto(views@, *phases, *view_ticks, i as int, j + 1, v, e)
                            && pass_succeeds(
                            c0.entry(v, e),
                            *inputs,
                            *allocator,
                            *view_ticks,
                            *entity_ticks,
                            *pipeline,
                            this_run,
                            v,
                            e,
                        ) implies pipelines.id_of(
                        resolve(*inputs, *allocator, view_ticks.keys@[v], e).unwrap().0,
                        resolve(*inputs, *allocator, view_ticks.keys@[v], e).unwrap().1,
                    ).is_some() by {
                        lemma_visited_step(views@, *phases, *view_ticks, i as int, j as int, v, e);
                        if !visited_upto(views@, *phases, *view_ticks, i as int, j as int, v, e) {
                            assert(cb.entry(v, e) == c0.entry(v, e));
                        }
                    }
                    assert forall|v: u64, e: u64|
                        #![trigger cache.entry(v, e)]
                        cache.entry(v, e) == if visited_upto(
                            views@,
                            *phases,
                            *view_ticks,
                            i as int,
                            j + 1,
                            v,
                            e,
                        ) {
                            pass_outcome(
                                c0.entry(v, e),
                                *inputs,
                                *allocator,
                                *view_ticks,
                                *entity_ticks,
                                *pipeline,
                                *pipelines,
                                this_run,
                                v,
                                e,
                            )
                        } else {
                            c0.entry(v, e)
                        } by {
                        lemma_visited_step(views@, *phases, *view_ticks, i as int, j as int, v, e);
                        let before = visited_upto(views@, *phases, *view_ticks, i as int, j as int, v, e);
                        let last = c0.entry(v, e);
                        let needed = needs(view_ticks.ticks@.get(v), entity_ticks.entities@.get(e), last, this_run);
                        let resolved = resolve(*inputs, *allocator, view_ticks.keys@[v], e);
                        assert(cb.entry(v, e) == if before {
                            pass_outcome(last, *inputs, *allocator, *view_ticks, *entity_ticks, *pipeline, pb, this_run, v, e)
                        } else {
                            last
                        });
                        if before {
                            lemma_outcome_stable(last, needed, resolved, *pipeline, pb, *pipelines, this_run);
                        }
                        if v == v0 && e == e0 {
                            if before && succeeds(needed, resolved, *pipeline) {
                                lemma_current_entry_unchanged(
                                    view_ticks.ticks@.get(v),
                                    entity_ticks.entities@.get(e),
                                    this_run,
                                );
                            }
                        }
                    }
                }
                j = j + 1;
            }
        }
        proof {
            assert forall|v: u64, e: u64|
                #![trigger visited_upto(views@, *phases, *view_ticks, i + 1, 0, v, e)]
                visited_upto(views@, *phases, *view_ticks, i + 1, 0, v, e) == if view_active(
                    views@[i as int],
                    *phases,
                    *view_ticks,
                ) {
                    visited_upto(views@, *phases, *view_ticks, i as int, views@[i as int].visible@.len() as int, v, e)
                } else {
                    visited_upto(views@, *phases, *view_ticks, i as int, 0, v, e)
                } by {
                lemma_visited_next_view(views@, *phases, *view_ticks, i as int, v, e);
            }
        }
        i = i + 1;
    }
    proof {
        assert(pipelines.entries@.subrange(0, pipelines.entries@.len() as int) =~= pipelines.entries@);
        if (forall|v: u64, e: u64|
            #[trigger] visited(views@, *phases, *view_ticks, v, e) ==> !pass_succeeds(
                c0.entry(v, e),
                *inputs,
                *allocator,
                *view_ticks,
                *entity_ticks,
                *pipeline,
                this_run,
                v,
                e,
            )) {
            if pipelines.entries@.len() > p0.entries@.len() {
                assert(new_variant(
                    views@,
                    *phases,
                    *view_ticks,
                    *entity_ticks,
                    *inputs,
                    *allocator,
                    *pipeline,
                    c0,
                    p0,
                    this_run,
                    pipelines.entries@[p0.entries@.len() as int],
                ));
            }
            assert(pipelines.entries@ =~= p0.entries@);
            assert(pipeline_cache.states@ =~= old(pipeline_cache).states@);
            assert(pipeline_cache.descriptors@ =~= old(pipeline_cache).descriptors@);
        }
    }
    errors
}

/// Records the entities whose mesh or material changed this frame.
pub fn check_entities_needing_specialization(
    changed: &Vec<u64>,
    needing: &mut EntitiesNeedingSpecialization,
)
    ensures
        final(needing).entities@ == changed@,
{
    needing.entities.clear();
    let mut i: usize = 0;
    while i < changed.len()
        invariant
            i <= changed@.len(),
            needing.entities@ == changed@.subrange(0, i as int),
        decreases changed@.len() - i,
    {
        needing.entities.push(changed[i]);
        assert(needing.entities@ =~= changed@.subrange(0, i + 1));
        i = i + 1;
    }
    assert(changed@.subrange(0, changed@.len() as int) =~= changed@);
}

impl EntitySpecializationTicks {
    pub fn new() -> (r: Self)
        ensures
            r.entities@ == Map::<u64, Tick>::empty(),
    {
        EntitySpecializationTicks { entities: HashMap::new() }
    }
}

impl EntitiesNeedingSpecialization {
    pub fn new() -> (r: Self)
        ensures
            r.entities@.len() == 0,
    {
        EntitiesNeedingSpecialization { entities: Vec::new() }
    }
}

impl RenderMaterialInstances {
    pub fn new() -> (r: Self)
        ensures
            r.map@ == Map::<u64, u64>::empty(),
    {
        RenderMaterialInstances { map: HashMap::new() }
    }
}

/// Stamps every entity that needs specialization with the current tick.
pub fn extract_entities_needs_specialization(
    needing: &EntitiesNeedingSpecialization,
    ticks: &mut EntitySpecializationTicks,
    this_run: Tick,
)
    ensures
        forall|e: u64|
            #[trigger] final(ticks).entities@.contains_key(e) == (old(ticks).entities@.contains_key(e)
                || needing.entities@.contains(e)),
        forall|e: u64|
            #[trigger] needing.entities@.contains(e) ==> final(ticks).entities@[e] == this_run,
        forall|e: u64|
            old(ticks).entities@.contains_key(e) && !needing.entities@.contains(e)
                ==> #[trigger] final(ticks).entities@[e] == old(ticks).entities@[e],
{
    let mut i: usize = 0;
    while i < needing.entities.len()
        invariant
            i <= needing.entities@.len(),
            forall|e: u64|
                #[trigger] ticks.entities@.contains_key(e) == (old(ticks).entities@.contains_key(e)
                    || needing.entities@.subrange(0, i as int).contains(e)),
            forall|e: u64|
                #[trigger] needing.entities@.subrange(0, i as int).contains(e)
                    ==> ticks.entities@[e] == this_run,
            forall|e: u64|
                old(ticks).entities@.contains_key(e) && !needing.entities@.subrange(
                    0,
                    i as int,
                ).contains(e) ==> #[trigger] ticks.entities@[e] == old(ticks).entities@[e],
        decreases needing.entities@.len() - i,
    {
        let e = needing.entities[i];
        ticks.entities.insert(e, this_run);
        proof {
            assert(needing.entities@.subrange(0, i + 1) =~= needing.entities@.subrange(
                0,
                i as int,
            ).push(e));
            crate::phase::lemma_push_contains(needing.entities@.subrange(0, i as int), e);
        }
        i = i + 1;
    }
    assert(needing.entities@.subrange(0, needing.entities@.len() as int) =~= needing.entities@);
}

impl ViewSpecializationTicks {
    pub fn new() -> (r: Self)
        ensures
            r.keys@ == Map::<u64, u64>::empty(),
            r.ticks@ == Map::<u64, Tick>::empty(),
    {
        ViewSpecializationTicks { keys: HashMap::new(), ticks: HashMap::new() }
    }

    /// Records a view's key for this frame; a view seen for the first time
    /// or with another key than before is stamped with the current tick.
    pub fn observe(&mut self, view: u64, key: u64, this_run: Tick)
        ensures
            final(self).keys@ == old(self).keys@.insert(view, key),
            final(self).ticks@ == (if old(self).keys@.get(view) == Some(key)
                && old(self).ticks@.contains_key(view) {
                old(self).ticks@
            } else {
                old(self).ticks@.insert(view, this_run)
            }),
    {
        let unchanged = match self.keys.get(&view) {
            Some(k) => *k == key && self.ticks.contains_key(&view),
            None => false,
        };
        if !unchanged {
            self.ticks.insert(view, this_run);
        }
        self.keys.insert(view, key);
    }
}

/// Applies this frame's changes to the material instances: entities whose
/// visibility or material changed are recorded when visible and dropped
/// when not, the last change of an entity counting; entities that lost
/// their visibility or material, and did not change again, are dropped.
pub open spec fn extracted_instances(
    m: Map<u64, u64>,
    changed: Seq<(u64, bool, u64)>,
    removed: Seq<u64>,
) -> Map<u64, u64>
    decreases changed.len() + removed.len(),
{
    if removed.len() > 0 {
        let rest = extracted_instances(m, changed, removed.drop_last());
        let e = removed.last();
        if exists|k: int| 0 <= k < changed.len() && #[trigger] changed[k].0 == e {
            rest
        } else {
            rest.remove(e)
        }
    } else if changed.len() > 0 {
        let rest = extracted_instances(m, changed.drop_last(), removed);
        let (e, visible, material) = changed.last();
        if visible {
            rest.insert(e, material)
        } else {
            rest.remove(e)
        }
    } else {
        m
    }
}

/// Keeps the material instances in step with what changed in the scene:
/// `changed` lists (entity, visible, material asset) for entities whose
/// visibility or material changed, `removed` the entities that lost one of
/// them.
pub fn extract_mesh_materials(
    instances: &mut RenderMaterialInstances,
    changed: &Vec<(u64, bool, u64)>,
    removed: &Vec<u64>,
)
    ensures
        final(instances).map@ == extracted_instances(old(instances).map@, changed@, removed@),
{
    let mut i: usize = 0;
    while i < changed.len()
        invariant
            i <= changed@.len(),
            instances.map@ == extracted_instances(
                old(instances).map@,
                changed@.subrange(0, i as int),
                Seq::<u64>::empty(),
            ),
        decreases changed@.len() - i,
    {
        let (e, visible, material) = changed[i];
        if visible {
            instances.map.insert(e, material);
        } else {
            instances.map.remove(&e);
        }
        proof {
            assert(changed@.subrange(0, i + 1).drop_last() =~= changed@.subrange(0, i as int));
        }
        i = i + 1;
    }
    assert(changed@.subrange(0, changed@.len() as int) =~= changed@);
    assert(removed@.subrange(0, 0) =~= Seq::<u64>::empty());
    let mut j: usize = 0;
    while j < removed.len()
        invariant
            j <= removed@.len(),
            instances.map@ == extracted_instances(
                old(instances).map@,
                changed@,
                removed@.subrange(0, j as int),
            ),
        decreases removed@.len() - j,
    {
        let e = removed[j];
        let mut found = false;
        let mut k: usize = 0;
        while k < changed.len()
            invariant
                k <= changed@.len(),
                found == exists|t: int| 0 <= t < k && #[trigger] changed@[t].0 == e,
            decreases changed@.len() - k,
        {
            if changed[k].0 == e {
                found = true;
            }
            k = k + 1;
        }
        if !found {
            instances.map.remove(&e);
        }
        proof {
            assert(removed@.subrange(0, j + 1).drop_last() =~= removed@.subrange(0, j as int));
        }
        j = j + 1;
    }
    assert(removed@.subrange(0, removed@.len() as int) =~= removed@);
}

/// The bind group to set when drawing an entity: found through its
/// material instance, the prepared material, and the allocator, once the
/// group's bind group exists. `None` skips the draw.
pub fn material_bind_group_for(
    entity: u64,
    inputs: &RenderInputs,
    allocator: &MaterialBindGroupAllocator,
) -> (r: Option<u64>)
    ensures
        r == material_bind_group_spec(entity, *inputs, *allocator),
{
    let material_asset_id = match inputs.material_instances.map.get(&entity) {
        Some(m) => *m,
        None => {
            return None;
        },
    };
    let material = match inputs.materials.get(&material_asset_id) {
        Some(m) => *m,
        None => {
            return None;
        },
    };
    match allocator.get(material.binding.group) {
        Some(group) => group.get_bind_group(),
        None => None,
    }
}

/// What a draw command did.
#[derive(Clone, Copy, Debug, PartialEq, Eq, Structural)]
pub enum RenderCommandResult {
    /// Bind this bind group at this index.
    SetBindGroup { index: u32, bind_group: u64 },
    /// Skip the item this frame.
    Skip,
}

/// The draw command that binds a material's bind group at `index`.
#[derive(Clone, Copy, Debug, PartialEq, Eq, Structural)]
pub struct SetMaterialBindGroup {
    pub index: u32,
}

impl SetMaterialBindGroup {
    pub fn render(
        &self,
        entity: u64,
        inputs: &RenderInputs,
        allocator: &MaterialBindGroupAllocator,
    ) -> (r: RenderCommandResult)
        ensures
            r == (match material_bind_group_spec(entity, *inputs, *allocator) {
                Some(b) => RenderCommandResult::SetBindGroup { index: self.index, bind_group: b },
                None => RenderCommandResult::Skip,
            }),
    {
        match material_bind_group_for(entity, inputs, allocator) {
            Some(b) => RenderCommandResult::SetBindGroup { index: self.index, bind_group: b },
            None => RenderCommandResult::Skip,
        }
    }
}

/// The bind group of an entity's material, once it exists.
pub open spec fn material_bind_group_spec(
    entity: u64,
    inputs: RenderInputs,
    allocator: MaterialBindGroupAllocator,
) -> Option<u64> {
    let mi = inputs.material_instances.map@;
    if mi.contains_key(entity) && inputs.materials@.contains_key(mi[entity]) && allocator.is_live(
        crate::allocator::MaterialBindingId {
            group: inputs.materials@[mi[entity]].binding.group,
            slot: 0,
        },
    ) {
        allocator.bind_group_of(inputs.materials@[mi[entity]].binding.group)
    } else {
        None
    }
}

} // verus!
