//! Laws that relate the specialization functions across calls and inputs.
use vstd::prelude::*;
use crate::allocator::MaterialBindGroupAllocator;
use crate::key::{mesh_key_of, InstanceKeyInputs, MaterialPipelineKey};
use crate::material::{properties_of, DrawFunctionIds, MaterialDescriptor, OpaqueRendererMethod};
use crate::pipeline::{MaterialPipeline, SpecializedMaterialPipelines};
use crate::phase::ViewPhases;
use crate::queue::queued_view;
use crate::specialize::{
    changed_since,
    needs,
    sees,
    ExtractedView,
    SpecializedMaterialPipelineCache,
    outcome,
    pass_outcome,
    pass_succeeds,
    resolve,
    EntitySpecializationTicks,
    RenderInputs,
    RenderMesh,
    ViewSpecializationTicks,
};
use crate::tick::Tick;

verus! {

/// A pair whose view and entity have not changed since it was specialized
/// needs no specialization, and keeps its entry and its pipeline.
pub proof fn lemma_unchanged_pair_keeps_entry(
    view_tick: Option<Tick>,
    entity_tick: Option<Tick>,
    t: Tick,
    id: u32,
    resolved: Option<(MaterialPipelineKey, u64)>,
    pipeline: MaterialPipeline,
    pipelines: SpecializedMaterialPipelines,
    this_run: Tick,
)
    requires
        !changed_since(view_tick, t, this_run),
        !changed_since(entity_tick, t, this_run),
    ensures
        !needs(view_tick, entity_tick, Some((t, id)), this_run),
        outcome(
            Some((t, id)),
            needs(view_tick, entity_tick, Some((t, id)), this_run),
            resolved,
            pipeline,
            pipelines,
            this_run,
        ) == Some((t, id)),
{
}

/// Running the specialization pass a second time in the same frame, with
/// the same inputs, leaves every entry as the first run left it.
pub proof fn lemma_pass_idempotent(
    last: Option<(Tick, u32)>,
    inputs: RenderInputs,
    allocator: MaterialBindGroupAllocator,
    view_ticks: ViewSpecializationTicks,
    entity_ticks: EntitySpecializationTicks,
    pipeline: MaterialPipeline,
    p1: SpecializedMaterialPipelines,
    p2: SpecializedMaterialPipelines,
    this_run: Tick,
    v: u64,
    e: u64,
)
    requires
        pass_succeeds(last, inputs, allocator, view_ticks, entity_ticks, pipeline, this_run, v, e)
            ==> p1.id_of(
            resolve(inputs, allocator, view_ticks.keys@[v], e).unwrap().0,
            resolve(inputs, allocator, view_ticks.keys@[v], e).unwrap().1,
        ).is_some(),
        forall|k: MaterialPipelineKey, l: u64|
            p1.id_of(k, l).is_some() ==> #[trigger] p2.id_of(k, l) == p1.id_of(k, l),
    ensures
        pass_outcome(
            pass_outcome(
                last,
                inputs,
                allocator,
                view_ticks,
                entity_ticks,
                pipeline,
                p1,
                this_run,
                v,
                e,
            ),
            inputs,
            allocator,
            view_ticks,
            entity_ticks,
            pipeline,
            p2,
            this_run,
            v,
            e,
        ) == pass_outcome(
            last,
            inputs,
            allocator,
            view_ticks,
            entity_ticks,
            pipeline,
            p1,
            this_run,
            v,
            e,
        ),
{
    let resolved = resolve(inputs, allocator, view_ticks.keys@[v], e);
    if pass_succeeds(last, inputs, allocator, view_ticks, entity_ticks, pipeline, this_run, v, e) {
        crate::specialize::lemma_current_entry_unchanged(
            view_ticks.ticks@.get(v),
            entity_ticks.entities@.get(e),
            this_run,
        );
    }
}

/// Two materials that agree in alpha mode and in reading the transmission
/// texture, bound with equal extra data, drawn with the same mesh layout,
/// instance and view, have equal keys and so resolve to the same pipeline,
/// whatever else differs between them.
pub proof fn lemma_key_equality(
    view_key: u64,
    mesh: RenderMesh,
    inst: InstanceKeyInputs,
    a: MaterialDescriptor,
    b: MaterialDescriptor,
    default_method: OpaqueRendererMethod,
    draw_a: DrawFunctionIds,
    draw_b: DrawFunctionIds,
    extra: u64,
    pipelines: SpecializedMaterialPipelines,
)
    requires
        a.alpha_mode == b.alpha_mode,
        a.reads_view_transmission_texture == b.reads_view_transmission_texture,
    ensures
        ({
            let pa = properties_of(a, default_method, draw_a);
            let pb = properties_of(b, default_method, draw_b);
            let ka = MaterialPipelineKey {
                mesh_key: mesh_key_of(
                    view_key,
                    mesh.key_bits,
                    pa.mesh_pipeline_key_bits,
                    pa.alpha_mode,
                    inst,
                ),
                bind_group_data: extra,
            };
            let kb = MaterialPipelineKey {
                mesh_key: mesh_key_of(
                    view_key,
                    mesh.key_bits,
                    pb.mesh_pipeline_key_bits,
                    pb.alpha_mode,
                    inst,
                ),
                bind_group_data: extra,
            };
            ka == kb && pipelines.id_of(ka, mesh.layout) == pipelines.id_of(kb, mesh.layout)
        }),
{
}

/// Two entities with the same mesh, the same instance key inputs, and
/// materials that agree in alpha mode and key bits and are bound with equal
/// extra data resolve to the same key and layout.
pub proof fn lemma_entities_share_key(
    inputs: RenderInputs,
    allocator: MaterialBindGroupAllocator,
    view_key: u64,
    e1: u64,
    e2: u64,
)
    requires
        resolve(inputs, allocator, view_key, e1).is_some(),
        resolve(inputs, allocator, view_key, e2).is_some(),
        ({
            let mi = inputs.material_instances.map@;
            let ins = inputs.mesh_instances@;
            let m1 = inputs.materials@[mi[e1]];
            let m2 = inputs.materials@[mi[e2]];
            &&& inputs.meshes@[ins[e1].mesh_asset_id] == inputs.meshes@[ins[e2].mesh_asset_id]
            &&& ins[e1].key_inputs == ins[e2].key_inputs
            &&& m1.properties.alpha_mode == m2.properties.alpha_mode
            &&& m1.properties.mesh_pipeline_key_bits == m2.properties.mesh_pipeline_key_bits
            &&& crate::allocator::extra_data_of(allocator.slot_of(m1.binding))
                == crate::allocator::extra_data_of(allocator.slot_of(m2.binding))
        }),
    ensures
        resolve(inputs, allocator, view_key, e1) == resolve(inputs, allocator, view_key, e2),
{
}

/// Stamping a view with the current tick makes every entry of that view
/// that is older than this frame need specialization, and changes nothing
/// for any other view.
pub proof fn lemma_view_change_invalidates_only_that_view(
    ticks: Map<u64, Tick>,
    view: u64,
    other: u64,
    entity_tick: Option<Tick>,
    t: Tick,
    id: u32,
    this_run: Tick,
)
    requires
        t.tick != this_run.tick,
        other != view,
    ensures
        needs(ticks.insert(view, this_run).get(view), entity_tick, Some((t, id)), this_run),
        needs(ticks.insert(view, this_run).get(other), entity_tick, Some((t, id)), this_run) == needs(
            ticks.get(other),
            entity_tick,
            Some((t, id)),
            this_run,
        ),
{
    crate::tick::lemma_current_tick_newer(t.tick, this_run.tick);
}

/// Stamping an entity with the current tick makes its entries in every
/// view that are older than this frame need specialization, and changes
/// nothing for any other entity.
pub proof fn lemma_entity_change_invalidates_only_that_entity(
    ticks: Map<u64, Tick>,
    entity: u64,
    other: u64,
    view_tick: Option<Tick>,
    t: Tick,
    id: u32,
    this_run: Tick,
)
    requires
        t.tick != this_run.tick,
        other != entity,
    ensures
        needs(view_tick, ticks.insert(entity, this_run).get(entity), Some((t, id)), this_run),
        needs(view_tick, ticks.insert(entity, this_run).get(other), Some((t, id)), this_run) == needs(
            view_tick,
            ticks.get(other),
            Some((t, id)),
            this_run,
        ),
{
    crate::tick::lemma_current_tick_newer(t.tick, this_run.tick);
}

/// After a view is queued and swept, no binned phase of it holds an entity
/// that the view no longer sees.
pub proof fn lemma_sweep_drops_unseen(
    inputs: RenderInputs,
    multi_draw_indirect: bool,
    cache: SpecializedMaterialPipelineCache,
    view: ExtractedView,
    before: ViewPhases,
    after: ViewPhases,
    x: u64,
)
    requires
        queued_view(inputs, multi_draw_indirect, cache, view, before, after),
        !sees(view, x, view.visible@.len() as int),
    ensures
        !after.opaque.has(x),
        !after.alpha_mask.has(x),
{
}

} // verus!
