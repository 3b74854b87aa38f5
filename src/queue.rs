//! Queuing: places each specialized drawable of a view into the phase its
//! material belongs to, and sweeps binned phases of what was not confirmed.
use vstd::prelude::*;
use crate::material::{OpaqueRendererMethod, PreparedMaterial, RenderPhaseType};
use crate::phase::{
    BatchSetKey,
    BinnedEntity,
    BinnedRenderPhase,
    BinnedRenderPhaseType,
    SortedPhaseItem,
    ViewPhases,
    ViewRangefinder3d,
    ViewRenderPhases,
};
use crate::specialize::{
    ExtractedView,
    RenderInputs,
    RenderMeshQueueData,
    SpecializedMaterialPipelineCache,
    sees,
};
use crate::tick::Tick;

verus! {

broadcast use vstd::std_specs::hash::group_hash_axioms;

/// The mesh instance and prepared material of an entity, when both are
/// present.
pub open spec fn drawable_of(inputs: RenderInputs, e: u64) -> Option<
    (RenderMeshQueueData, PreparedMaterial),
> {
    let mi = inputs.material_instances.map@;
    let ins = inputs.mesh_instances@;
    if mi.contains_key(e) && ins.contains_key(e) && inputs.materials@.contains_key(mi[e]) {
        Some((ins[e], inputs.materials@[mi[e]]))
    } else {
        None
    }
}

/// The phase an entity is queued in: its material's, except that opaque
/// materials rendered deferred are left to the deferred pass.
pub open spec fn target_phase(inputs: RenderInputs, e: u64) -> Option<RenderPhaseType> {
    match drawable_of(inputs, e) {
        Some((_, m)) => if m.properties.render_phase_type == RenderPhaseType::Opaque
            && m.properties.render_method == OpaqueRendererMethod::Deferred {
            None
        } else {
            Some(m.properties.render_phase_type)
        },
        None => None,
    }
}

/// The vertex and index slabs of a mesh asset.
pub open spec fn slabs_of(inputs: RenderInputs, mesh: u64) -> (Option<u32>, Option<u32>) {
    if inputs.meshes@.contains_key(mesh) {
        (inputs.meshes@[mesh].vertex_slab, inputs.meshes@[mesh].index_slab)
    } else {
        (None, None)
    }
}

pub open spec fn batch_set_key_of(
    inputs: RenderInputs,
    e: u64,
    pipeline: u32,
    with_lightmap: bool,
) -> BatchSetKey {
    let (ins, m) = drawable_of(inputs, e).unwrap();
    let (vs, is) = slabs_of(inputs, ins.mesh_asset_id);
    BatchSetKey {
        pipeline,
        draw_function: m.properties.draw_function_id,
        material_bind_group_index: Some(m.binding.group),
        vertex_slab: match vs {
            Some(v) => v,
            None => 0,
        },
        index_slab: is,
        lightmap_slab: if with_lightmap {
            ins.lightmap_slab_index
        } else {
            None
        },
    }
}

/// The binned entry of an entity queued with the given tick and pipeline.
pub open spec fn binned_entry_of(
    inputs: RenderInputs,
    multi_draw_indirect: bool,
    e: u64,
    render_entity: u64,
    tick: Tick,
    pipeline: u32,
    with_lightmap: bool,
) -> BinnedEntity {
    let (ins, m) = drawable_of(inputs, e).unwrap();
    BinnedEntity {
        batch_set_key: batch_set_key_of(inputs, e, pipeline, with_lightmap),
        bin_key: ins.mesh_asset_id,
        render_entity,
        main_entity: e,
        phase_type: if !ins.should_batch {
            BinnedRenderPhaseType::UnbatchableMesh
        } else if multi_draw_indirect {
            BinnedRenderPhaseType::MultidrawableMesh
        } else {
            BinnedRenderPhaseType::BatchableMesh
        },
        change_tick: tick,
        valid: true,
    }
}

/// The sorted item of an entity queued with the given pipeline.
pub open spec fn sorted_item_of(
    inputs: RenderInputs,
    rangefinder: ViewRangefinder3d,
    e: u64,
    render_entity: u64,
    pipeline: u32,
) -> SortedPhaseItem {
    let (ins, m) = drawable_of(inputs, e).unwrap();
    SortedPhaseItem {
        render_entity,
        main_entity: e,
        draw_function: m.properties.draw_function_id,
        pipeline,
        distance: (rangefinder.depth(ins.translation) + m.properties.depth_bias) as i128,
        indexed: slabs_of(inputs, ins.mesh_asset_id).1.is_some(),
    }
}

pub open spec fn confirmed_in(p: BinnedRenderPhase, e: u64, tick: Tick) -> bool {
    p.has(e) && p.entry(e).change_tick == tick
}

/// A binned phase after `add` of `entry`.
pub open spec fn added(old: BinnedRenderPhase, new: BinnedRenderPhase, entry: BinnedEntity) -> bool {
    &&& forall|x: u64| new.has(x) == (old.has(x) || x == entry.main_entity)
    &&& new.entry(entry.main_entity) == entry
    &&& forall|x: u64|
        #![trigger new.entry(x)]
        old.has(x) && x != entry.main_entity ==> new.entry(x) == old.entry(x)
}

/// A binned phase after confirming `e`.
pub open spec fn confirmed(old: BinnedRenderPhase, new: BinnedRenderPhase, e: u64) -> bool {
    &&& forall|x: u64| new.has(x) == old.has(x)
    &&& forall|x: u64|
        #![trigger new.entry(x)]
        old.has(x) ==> new.entry(x) == (if x == e {
            BinnedEntity { valid: true, ..old.entry(x) }
        } else {
            old.entry(x)
        })
}

/// A sorted phase after `add` of `item`.
pub open spec fn inserted(old: Seq<SortedPhaseItem>, new: Seq<SortedPhaseItem>, item: SortedPhaseItem) -> bool {
    exists|p: int|
        0 <= p <= old.len() && new == old.insert(p, item) && (forall|j: int|
            0 <= j < p ==> old[j].distance <= item.distance) && (forall|j: int|
            p <= j < old.len() ==> old[j].distance > item.distance)
}

/// What queuing one entity does to a view's phases: see `queue_entity`.
pub open spec fn entity_queued(
    inputs: RenderInputs,
    multi_draw_indirect: bool,
    cache: SpecializedMaterialPipelineCache,
    view_entity: u64,
    rangefinder: ViewRangefinder3d,
    old: ViewPhases,
    new: ViewPhases,
    render_entity: u64,
    e: u64,
) -> bool {
    match cache.entry(view_entity, e) {
        None => new == old,
        Some((t, p)) => if confirmed_in(old.opaque, e, t) {
            &&& confirmed(old.opaque, new.opaque, e)
            &&& new.alpha_mask == old.alpha_mask
            &&& new.transmissive == old.transmissive
            &&& new.transparent == old.transparent
        } else if confirmed_in(old.alpha_mask, e, t) {
            &&& new.opaque == old.opaque
            &&& confirmed(old.alpha_mask, new.alpha_mask, e)
            &&& new.transmissive == old.transmissive
            &&& new.transparent == old.transparent
        } else {
            match target_phase(inputs, e) {
                None => new == old,
                Some(RenderPhaseType::Opaque) => {
                    &&& added(
                        old.opaque,
                        new.opaque,
                        binned_entry_of(inputs, multi_draw_indirect, e, render_entity, t, p, true),
                    )
                    &&& new.alpha_mask == old.alpha_mask
                    &&& new.transmissive == old.transmissive
                    &&& new.transparent == old.transparent
                },
                Some(RenderPhaseType::AlphaMask) => {
                    &&& new.opaque == old.opaque
                    &&& added(
                        old.alpha_mask,
                        new.alpha_mask,
                        binned_entry_of(inputs, multi_draw_indirect, e, render_entity, t, p, false),
                    )
                    &&& new.transmissive == old.transmissive
                    &&& new.transparent == old.transparent
                },
                Some(RenderPhaseType::Transmissive) => {
                    &&& new.opaque == old.opaque
                    &&& new.alpha_mask == old.alpha_mask
                    &&& inserted(
                        old.transmissive.items@,
                        new.transmissive.items@,
                        sorted_item_of(inputs, rangefinder, e, render_entity, p),
                    )
                    &&& new.transparent == old.transparent
                },
                Some(RenderPhaseType::Transparent) => {
                    &&& new.opaque == old.opaque
                    &&& new.alpha_mask == old.alpha_mask
                    &&& new.transmissive == old.transmissive
                    &&& inserted(
                        old.transparent.items@,
                        new.transparent.items@,
                        sorted_item_of(inputs, rangefinder, e, render_entity, p),
                    )
                },
            }
        },
    }
}

/// Queues one entity seen from a view: confirms it where it is binned with
/// its current specialization tick, else adds it to the phase of its
/// material. Entities without a specialized pipeline or without data are
/// skipped.
pub fn queue_entity(
    inputs: &RenderInputs,
    multi_draw_indirect: bool,
    cache: &SpecializedMaterialPipelineCache,
    view_entity: u64,
    rangefinder: &ViewRangefinder3d,
    phases: &mut ViewPhases,
    render_entity: u64,
    e: u64,
)
    requires
        old(phases).wf(),
    ensures
        final(phases).wf(),
        entity_queued(
            *inputs,
            multi_draw_indirect,
            *cache,
            view_entity,
            *rangefinder,
            *old(phases),
            *final(phases),
            render_entity,
            e,
        ),
{
    let (tick, pipeline_id) = match cache.get(view_entity, e) {
        Some(x) => x,
        None => {
            return ;
        },
    };
    if phases.opaque.validate_cached_entity(e, tick) {
        return ;
    }
    if phases.alpha_mask.validate_cached_entity(e, tick) {
        return ;
    }
    let material_asset_id = match inputs.material_instances.map.get(&e) {
        Some(m) => *m,
        None => {
            return ;
        },
    };
    let mesh_instance = match inputs.mesh_instances.get(&e) {
        Some(m) => *m,
        None => {
            return ;
        },
    };
    let material = match inputs.materials.get(&material_asset_id) {
        Some(m) => *m,
        None => {
            return ;
        },
    };
    let (vertex_slab, index_slab) = match inputs.meshes.get(&mesh_instance.mesh_asset_id) {
        Some(m) => (m.vertex_slab, m.index_slab),
        None => (None, None),
    };
    let props = material.properties;
    match props.render_phase_type {
        RenderPhaseType::Transmissive => {
            let distance = rangefinder.distance_translation(&mesh_instance.translation)
                + props.depth_bias as i128;
            phases.transmissive.add(
                SortedPhaseItem {
                    render_entity,
                    main_entity: e,
                    draw_function: props.draw_function_id,
                    pipeline: pipeline_id,
                    distance,
                    indexed: index_slab.is_some(),
                },
            );
        },
        RenderPhaseType::Opaque => {
            if props.render_method == OpaqueRendererMethod::Deferred {
                return ;
            }
            let batch_set_key = BatchSetKey {
                pipeline: pipeline_id,
                draw_function: props.draw_function_id,
                material_bind_group_index: Some(material.binding.group),
                vertex_slab: match vertex_slab {
                    Some(v) => v,
                    None => 0,
                },
                index_slab,
                lightmap_slab: mesh_instance.lightmap_slab_index,
            };
            phases.opaque.add(
                batch_set_key,
                mesh_instance.mesh_asset_id,
                (render_entity, e),
                BinnedRenderPhaseType::mesh(mesh_instance.should_batch, multi_draw_indirect),
                tick,
            );
        },
        RenderPhaseType::AlphaMask => {
            let batch_set_key = BatchSetKey {
                pipeline: pipeline_id,
                draw_function: props.draw_function_id,
                material_bind_group_index: Some(material.binding.group),
                vertex_slab: match vertex_slab {
                    Some(v) => v,
                    None => 0,
                },
                index_slab,
                lightmap_slab: None,
            };
            phases.alpha_mask.add(
                batch_set_key,
                mesh_instance.mesh_asset_id,
                (render_entity, e),
                BinnedRenderPhaseType::mesh(mesh_instance.should_batch, multi_draw_indirect),
                tick,
            );
        },
        RenderPhaseType::Transparent => {
            let distance = rangefinder.distance_translation(&mesh_instance.translation)
                + props.depth_bias as i128;
            phases.transparent.add(
                SortedPhaseItem {
                    render_entity,
                    main_entity: e,
                    draw_function: props.draw_function_id,
                    pipeline: pipeline_id,
                    distance,
                    indexed: index_slab.is_some(),
                },
            );
        },
    }
}

proof fn lemma_sees_step(view: ExtractedView, j: int, x: u64)
    requires
        0 <= j < view.visible@.len(),
    ensures
        sees(view, x, j + 1) == (sees(view, x, j) || x == view.visible@[j].1),
{
    if x == view.visible@[j].1 {
        assert(sees(view, x, j + 1));
    }
    if sees(view, x, j + 1) && !sees(view, x, j) {
        let t = choose|t: int|
            0 <= t < j + 1 && t < view.visible@.len() && #[trigger] view.visible@[t].1 == x;
        assert(t == j);
    }
    if sees(view, x, j) {
        let t = choose|t: int|
            0 <= t < j && t < view.visible@.len() && #[trigger] view.visible@[t].1 == x;
        assert(sees(view, x, j + 1));
    }
}

/// The entry with its confirmation mark set.
pub open spec fn marked(b: BinnedEntity) -> BinnedEntity {
    BinnedEntity { valid: true, ..b }
}

/// `e` is the entry that queuing added for `x` from one of the first `n`
/// visible pairs, with tick `t` and pipeline `p`.
pub open spec fn added_from(
    inputs: RenderInputs,
    multi_draw_indirect: bool,
    view: ExtractedView,
    n: int,
    x: u64,
    e: BinnedEntity,
    t: Tick,
    p: u32,
    with_lightmap: bool,
) -> bool {
    exists|jj: int|
        0 <= jj < n && jj < view.visible@.len() && #[trigger] view.visible@[jj].1 == x && marked(e)
            == binned_entry_of(
            inputs,
            multi_draw_indirect,
            x,
            view.visible@[jj].0,
            t,
            p,
            with_lightmap,
        )
}

/// Why `x` is in the opaque phase with entry `e`: it is seen, and either it
/// was binned there with its current tick and keeps that entry, or its
/// material is opaque and it was binned anew with its current tick and
/// pipeline.
pub open spec fn opaque_ok(
    inputs: RenderInputs,
    multi_draw_indirect: bool,
    cache: SpecializedMaterialPipelineCache,
    view: ExtractedView,
    old: ViewPhases,
    n: int,
    x: u64,
    e: BinnedEntity,
) -> bool {
    let c = cache.entry(view.main_entity, x);
    &&& c is Some
    &&& sees(view, x, n)
    &&& e.change_tick == c.unwrap().0
    &&& (confirmed_in(old.opaque, x, c.unwrap().0) && marked(e) == marked(old.opaque.entry(x))) || (
    !confirmed_in(old.opaque, x, c.unwrap().0) && !confirmed_in(old.alpha_mask, x, c.unwrap().0)
        && target_phase(inputs, x) == Some(RenderPhaseType::Opaque) && added_from(
        inputs,
        multi_draw_indirect,
        view,
        n,
        x,
        e,
        c.unwrap().0,
        c.unwrap().1,
        true,
    ))
}

/// Why `x` is in the alpha-mask phase with entry `e`, as `opaque_ok`; an
/// entity binned opaque with its current tick is not also kept here.
pub open spec fn alpha_ok(
    inputs: RenderInputs,
    multi_draw_indirect: bool,
    cache: SpecializedMaterialPipelineCache,
    view: ExtractedView,
    old: ViewPhases,
    n: int,
    x: u64,
    e: BinnedEntity,
) -> bool {
    let c = cache.entry(view.main_entity, x);
    &&& c is Some
    &&& sees(view, x, n)
    &&& e.change_tick == c.unwrap().0
    &&& !confirmed_in(old.opaque, x, c.unwrap().0)
    &&& (confirmed_in(old.alpha_mask, x, c.unwrap().0) && marked(e) == marked(
        old.alpha_mask.entry(x),
    )) || (!confirmed_in(old.alpha_mask, x, c.unwrap().0) && target_phase(inputs, x) == Some(
        RenderPhaseType::AlphaMask,
    ) && added_from(
        inputs,
        multi_draw_indirect,
        view,
        n,
        x,
        e,
        c.unwrap().0,
        c.unwrap().1,
        false,
    ))
}

/// `item` is what queuing adds to the sorted phase `phase` for the visible
/// pair `pair`: the entity has a pipeline, is not binned with its current
/// tick, and its material belongs to that phase.
pub open spec fn sorted_source(
    inputs: RenderInputs,
    cache: SpecializedMaterialPipelineCache,
    view: ExtractedView,
    old: ViewPhases,
    pair: (u64, u64),
    item: SortedPhaseItem,
    phase: RenderPhaseType,
) -> bool {
    let x = pair.1;
    let c = cache.entry(view.main_entity, x);
    &&& c is Some
    &&& !confirmed_in(old.opaque, x, c.unwrap().0)
    &&& !confirmed_in(old.alpha_mask, x, c.unwrap().0)
    &&& target_phase(inputs, x) == Some(phase)
    &&& item == sorted_item_of(inputs, view.rangefinder, x, pair.0, c.unwrap().1)
}

pub open spec fn sorted_from(
    inputs: RenderInputs,
    cache: SpecializedMaterialPipelineCache,
    view: ExtractedView,
    old: ViewPhases,
    n: int,
    item: SortedPhaseItem,
    phase: RenderPhaseType,
) -> bool {
    exists|jj: int|
        0 <= jj < n && jj < view.visible@.len() && sorted_source(
            inputs,
            cache,
            view,
            old,
            #[trigger] view.visible@[jj],
            item,
            phase,
        )
}

pub open spec fn kept(b: BinnedRenderPhase, x: u64, marked_only: bool) -> bool {
    b.has(x) && (!marked_only || b.entry(x).valid)
}

/// Where a seen entity with a pipeline ends up: kept where it was binned
/// with its current tick (the opaque phase first), else in its material's
/// phase.
pub open spec fn covered(
    inputs: RenderInputs,
    cache: SpecializedMaterialPipelineCache,
    view: ExtractedView,
    old: ViewPhases,
    ph: ViewPhases,
    n: int,
    x: u64,
    marked_only: bool,
) -> bool {
    let c = cache.entry(view.main_entity, x);
    c is Some ==> {
        let t = c.unwrap().0;
        let p = c.unwrap().1;
        let fresh = !confirmed_in(old.opaque, x, t) && !confirmed_in(old.alpha_mask, x, t);
        &&& confirmed_in(old.opaque, x, t) ==> kept(ph.opaque, x, marked_only)
        &&& (!confirmed_in(old.opaque, x, t) && confirmed_in(old.alpha_mask, x, t)) ==> kept(
            ph.alpha_mask,
            x,
            marked_only,
        )
        &&& (fresh && target_phase(inputs, x) == Some(RenderPhaseType::Opaque)) ==> kept(
            ph.opaque,
            x,
            marked_only,
        )
        &&& (fresh && target_phase(inputs, x) == Some(RenderPhaseType::AlphaMask)) ==> kept(
            ph.alpha_mask,
            x,
            marked_only,
        )
        &&& (fresh && target_phase(inputs, x) == Some(RenderPhaseType::Transparent)) ==> exists|
            jj: int,
        |
            0 <= jj < n && jj < view.visible@.len() && #[trigger] view.visible@[jj].1 == x
                && ph.transparent.items@.contains(
                sorted_item_of(inputs, view.rangefinder, x, view.visible@[jj].0, p),
            )
        &&& (fresh && target_phase(inputs, x) == Some(RenderPhaseType::Transmissive)) ==> exists|
            jj: int,
        |
            0 <= jj < n && jj < view.visible@.len() && #[trigger] view.visible@[jj].1 == x
                && ph.transmissive.items@.contains(
                sorted_item_of(inputs, view.rangefinder, x, view.visible@[jj].0, p),
            )
    }
}

/// What queuing a view does to its phases: every binned entity is seen and
/// is there for a reason (`opaque_ok`, `alpha_ok`), every new sorted item
/// comes from a seen entity of that phase (`sorted_from`), and every seen
/// entity with a pipeline ends up where `covered` says.
pub open spec fn queued_view(
    inputs: RenderInputs,
    multi_draw_indirect: bool,
    cache: SpecializedMaterialPipelineCache,
    view: ExtractedView,
    old: ViewPhases,
    new: ViewPhases,
) -> bool {
    let n = view.visible@.len() as int;
    &&& forall|x: u64|
        #[trigger] new.opaque.has(x) ==> opaque_ok(
            inputs,
            multi_draw_indirect,
            cache,
            view,
            old,
            n,
            x,
            new.opaque.entry(x),
        )
    &&& forall|x: u64|
        #[trigger] new.alpha_mask.has(x) ==> alpha_ok(
            inputs,
            multi_draw_indirect,
            cache,
            view,
            old,
            n,
            x,
            new.alpha_mask.entry(x),
        )
    &&& forall|item: SortedPhaseItem|
        #[trigger] new.transparent.items@.contains(item) ==> old.transparent.items@.contains(item)
            || sorted_from(inputs, cache, view, old, n, item, RenderPhaseType::Transparent)
    &&& forall|item: SortedPhaseItem|
        #[trigger] new.transmissive.items@.contains(item) ==> old.transmissive.items@.contains(item)
            || sorted_from(inputs, cache, view, old, n, item, RenderPhaseType::Transmissive)
    &&& forall|x: u64|
        #[trigger] sees(view, x, n) ==> covered(inputs, cache, view, old, new, n, x, false)
}

/// The state of a view's phases after queuing its first `j` visible pairs.
pub open spec fn queue_inv(
    inputs: RenderInputs,
    multi_draw_indirect: bool,
    cache: SpecializedMaterialPipelineCache,
    view: ExtractedView,
    o: ViewPhases,
    ph: ViewPhases,
    j: int,
) -> bool {
    &&& forall|x: u64|
                #[trigger] ph.opaque.has(x) ==> (ph.opaque.entry(x).valid ==> opaque_ok(
                    inputs,
                    multi_draw_indirect,
                    cache,
                    view,
                    o,
                    j,
                    x,
                    ph.opaque.entry(x),
                )) && (!ph.opaque.entry(x).valid ==> o.opaque.has(x) && ph.opaque.entry(x)
                    == o.opaque.entry(x))
    &&& forall|x: u64|
                #[trigger] ph.alpha_mask.has(x) ==> (ph.alpha_mask.entry(x).valid
                    ==> alpha_ok(
                    inputs,
                    multi_draw_indirect,
                    cache,
                    view,
                    o,
                    j,
                    x,
                    ph.alpha_mask.entry(x),
                )) && (!ph.alpha_mask.entry(x).valid ==> o.alpha_mask.has(x)
                    && ph.alpha_mask.entry(x) == o.alpha_mask.entry(x))
    &&& forall|x: u64| #[trigger] o.opaque.has(x) ==> ph.opaque.has(x)
    &&& forall|x: u64| #[trigger] o.alpha_mask.has(x) ==> ph.alpha_mask.has(x)
    &&& forall|item: SortedPhaseItem|
                #[trigger] ph.transparent.items@.contains(item) ==> o.transparent.items@.contains(
                    item,
                ) || sorted_from(
                    inputs,
                    cache,
                    view,
                    o,
                    j,
                    item,
                    RenderPhaseType::Transparent,
                )
    &&& forall|item: SortedPhaseItem|
                #[trigger] ph.transmissive.items@.contains(item)
                    ==> o.transmissive.items@.contains(item) || sorted_from(
                    inputs,
                    cache,
                    view,
                    o,
                    j,
                    item,
                    RenderPhaseType::Transmissive,
                )
    &&& forall|x: u64|
                #[trigger] sees(view, x, j) ==> covered(
                    inputs,
                    cache,
                    view,
                    o,
                    ph,
                    j,
                    x,
                    true,
                )
}

proof fn lemma_queue_step(
    inputs: RenderInputs,
    multi_draw_indirect: bool,
    cache: SpecializedMaterialPipelineCache,
    view: ExtractedView,
    o: ViewPhases,
    pb: ViewPhases,
    ph: ViewPhases,
    j: int,
)
    requires
        0 <= j < view.visible@.len(),
        o.opaque.settled(),
        o.alpha_mask.settled(),
        pb.wf(),
        ph.wf(),
        queue_inv(inputs, multi_draw_indirect, cache, view, o, pb, j),
        entity_queued(
            inputs,
            multi_draw_indirect,
            cache,
            view.main_entity,
            view.rangefinder,
            pb,
            ph,
            view.visible@[j].0,
            view.visible@[j].1,
        ),
    ensures
        queue_inv(inputs, multi_draw_indirect, cache, view, o, ph, j + 1),
{
    let r0 = view.visible@[j].0;
    let x0 = view.visible@[j].1;
    assert forall|x: u64| sees(view, x, j + 1) == (sees(view, x, j) || x == x0) by {
        lemma_sees_step(view, j, x);
    }
    let c = cache.entry(view.main_entity, x0);
    if c is Some {
        let t = c.unwrap().0;
        let p = c.unwrap().1;
        // x0 is confirmed in a phase of `pb` only where it was in `o`, or
        // was added in this frame for its material's phase.
        if o.opaque.has(x0) {
            assert(pb.opaque.has(x0));
        }
        if o.alpha_mask.has(x0) {
            assert(pb.alpha_mask.has(x0));
        }
        if pb.opaque.has(x0) && pb.opaque.entry(x0).valid {
            assert(opaque_ok(inputs, multi_draw_indirect, cache, view, o, j, x0, pb.opaque.entry(x0)));
        }
        if pb.alpha_mask.has(x0) && pb.alpha_mask.entry(x0).valid {
            assert(alpha_ok(inputs, multi_draw_indirect, cache, view, o, j, x0, pb.alpha_mask.entry(x0)));
        }
        let item = sorted_item_of(inputs, view.rangefinder, x0, r0, p);
        if pb.transparent.items@ != ph.transparent.items@ {
            let q = choose|q: int|
                0 <= q <= pb.transparent.items@.len() && ph.transparent.items@
                    == pb.transparent.items@.insert(q, item) && (forall|k: int|
                    0 <= k < q ==> pb.transparent.items@[k].distance <= item.distance) && (forall|
                    k: int,
                |
                    q <= k < pb.transparent.items@.len() ==> pb.transparent.items@[k].distance
                        > item.distance);
            lemma_insert_contains(pb.transparent.items@, q, item);
            assert(sorted_source(inputs, cache, view, o, view.visible@[j], item, RenderPhaseType::Transparent));
        }
        if pb.transmissive.items@ != ph.transmissive.items@ {
            let q = choose|q: int|
                0 <= q <= pb.transmissive.items@.len() && ph.transmissive.items@
                    == pb.transmissive.items@.insert(q, item) && (forall|k: int|
                    0 <= k < q ==> pb.transmissive.items@[k].distance <= item.distance) && (forall|
                    k: int,
                |
                    q <= k < pb.transmissive.items@.len() ==> pb.transmissive.items@[k].distance
                        > item.distance);
            lemma_insert_contains(pb.transmissive.items@, q, item);
            assert(sorted_source(inputs, cache, view, o, view.visible@[j], item, RenderPhaseType::Transmissive));
        }
        if ph.opaque.has(x0) && ph.opaque.entry(x0).valid && !(pb.opaque.has(x0) && pb.opaque.entry(x0).valid) {
            assert(view.visible@[j].1 == x0);
        }
        if ph.alpha_mask.has(x0) && ph.alpha_mask.entry(x0).valid && !(pb.alpha_mask.has(x0) && pb.alpha_mask.entry(x0).valid) {
            assert(view.visible@[j].1 == x0);
        }
    }
    assert forall|x: u64| #[trigger] sees(view, x, j + 1) implies covered(
        inputs,
        cache,
        view,
        o,
        ph,
        j + 1,
        x,
        true,
    ) by {
        let cx = cache.entry(view.main_entity, x);
        if cx is Some {
            let t = cx.unwrap().0;
            let p = cx.unwrap().1;
            if pb.opaque.has(x) {
                assert(ph.opaque.has(x));
            }
            if pb.alpha_mask.has(x) {
                assert(ph.alpha_mask.has(x));
            }
            if x != x0 {
                assert(sees(view, x, j));
                assert(covered(inputs, cache, view, o, pb, j, x, true));
                if pb.opaque.has(x) {
                    assert(ph.opaque.entry(x) == pb.opaque.entry(x));
                }
                if pb.alpha_mask.has(x) {
                    assert(ph.alpha_mask.entry(x) == pb.alpha_mask.entry(x));
                }
            } else {
                if o.opaque.has(x) {
                    assert(pb.opaque.has(x));
                }
                if o.alpha_mask.has(x) {
                    assert(pb.alpha_mask.has(x));
                }
                if pb.opaque.has(x) {
                    if pb.opaque.entry(x).valid {
                        assert(opaque_ok(inputs, multi_draw_indirect, cache, view, o, j, x, pb.opaque.entry(x)));
                    } else {
                        assert(pb.opaque.entry(x) == o.opaque.entry(x));
                    }
                }
                if pb.alpha_mask.has(x) {
                    if pb.alpha_mask.entry(x).valid {
                        assert(alpha_ok(inputs, multi_draw_indirect, cache, view, o, j, x, pb.alpha_mask.entry(x)));
                    } else {
                        assert(pb.alpha_mask.entry(x) == o.alpha_mask.entry(x));
                    }
                }
                if confirmed_in(pb.opaque, x, t) {
                    assert(ph.opaque.entry(x).valid);
                } else if confirmed_in(pb.alpha_mask, x, t) {
                    assert(ph.alpha_mask.entry(x).valid);
                } else {
                    assert(!confirmed_in(o.opaque, x, t));
                    assert(!confirmed_in(o.alpha_mask, x, t));
                    let item = sorted_item_of(inputs, view.rangefinder, x, r0, p);
                    if target_phase(inputs, x) == Some(RenderPhaseType::Transparent) {
                        assert(ph.transparent.items@.contains(item));
                        assert(view.visible@[j].1 == x);
                    }
                    if target_phase(inputs, x) == Some(RenderPhaseType::Transmissive) {
                        assert(ph.transmissive.items@.contains(item));
                        assert(view.visible@[j].1 == x);
                    }
                }
            }
        }
    }
}

/// Inserting keeps every item and adds one.
proof fn lemma_insert_contains(s: Seq<SortedPhaseItem>, q: int, item: SortedPhaseItem)
    requires
        0 <= q <= s.len(),
    ensures
        forall|y: SortedPhaseItem| #[trigger]
            s.insert(q, item).contains(y) == (s.contains(y) || y == item),
{
    let t = s.insert(q, item);
    assert forall|y: SortedPhaseItem| #[trigger] t.contains(y) == (s.contains(y) || y == item) by {
        if s.contains(y) {
            let i = choose|i: int| 0 <= i < s.len() && s[i] == y;
            if i < q {
                assert(t[i] == y);
            } else {
                assert(t[i + 1] == y);
            }
        }
        if y == item {
            assert(t[q] == y);
        }
        if t.contains(y) {
            let i = choose|i: int| 0 <= i < t.len() && t[i] == y;
            if i < q {
                assert(s[i] == y);
            } else if i > q {
                assert(s[i - 1] == y);
            }
        }
    }
}

/// Queues every entity that a view sees, then sweeps its binned phases;
/// `queued_view` states the result.
pub fn queue_view(
    inputs: &RenderInputs,
    multi_draw_indirect: bool,
    cache: &SpecializedMaterialPipelineCache,
    view: &ExtractedView,
    phases: &mut ViewPhases,
)
    requires
        old(phases).wf(),
        old(phases).opaque.settled(),
        old(phases).alpha_mask.settled(),
    ensures
        final(phases).wf(),
        final(phases).opaque.settled(),
        final(phases).alpha_mask.settled(),
        queued_view(*inputs, multi_draw_indirect, *cache, *view, *old(phases), *final(phases)),
{
    let ghost o = *old(phases);
    let mut j: usize = 0;
    while j < view.visible.len()
        invariant
            j <= view.visible@.len(),
            o.opaque.settled(),
            o.alpha_mask.settled(),
            phases.wf(),
            queue_inv(*inputs, multi_draw_indirect, *cache, *view, o, *phases, j as int),
        decreases view.visible@.len() - j,
    {
        let (render_entity, x0) = view.visible[j];
        let ghost pb = *phases;
        queue_entity(
            inputs,
            multi_draw_indirect,
            cache,
            view.main_entity,
            &view.rangefinder,
            phases,
            render_entity,
            x0,
        );
        proof {
            lemma_queue_step(
                *inputs,
                multi_draw_indirect,
                *cache,
                *view,
                o,
                pb,
                *phases,
                j as int,
            );
        }
        j = j + 1;
    }
    let ghost pre = *phases;
    phases.opaque.sweep_old_entities();
    phases.alpha_mask.sweep_old_entities();
    proof {
        let n = view.visible@.len() as int;
        assert forall|x: u64| #[trigger] sees(*view, x, n) implies covered(
            *inputs,
            *cache,
            *view,
            o,
            *phases,
            n,
            x,
            false,
        ) by {
            assert(covered(*inputs, *cache, *view, o, pre, n, x, true));
        }
        assert forall|x: u64| #[trigger] phases.opaque.has(x) implies opaque_ok(
            *inputs,
            multi_draw_indirect,
            *cache,
            *view,
            o,
            n,
            x,
            phases.opaque.entry(x),
        ) by {
            assert(pre.opaque.has(x));
            assert(marked(phases.opaque.entry(x)) == marked(pre.opaque.entry(x)));
        }
        assert forall|x: u64| #[trigger] phases.alpha_mask.has(x) implies alpha_ok(
            *inputs,
            multi_draw_indirect,
            *cache,
            *view,
            o,
            n,
            x,
            phases.alpha_mask.entry(x),
        ) by {
            assert(pre.alpha_mask.has(x));
            assert(marked(phases.alpha_mask.entry(x)) == marked(pre.alpha_mask.entry(x)));
        }
    }
}

pub open spec fn phases_settled(phases: ViewRenderPhases) -> bool {
    forall|v: u64| #[trigger]
        phases.views@.contains_key(v) ==> phases.views@[v].opaque.settled()
            && phases.views@[v].alpha_mask.settled()
}

/// Queues the entities of every view that has phases, as `queue_view`
/// does. Views are told apart by their retained entity; the phases of
/// other retained entities are left alone.
pub fn queue_material_meshes(
    inputs: &RenderInputs,
    multi_draw_indirect: bool,
    phases: &mut ViewRenderPhases,
    views: &Vec<ExtractedView>,
    cache: &SpecializedMaterialPipelineCache,
)
    requires
        old(phases).wf(),
        phases_settled(*old(phases)),
        forall|a: int, b: int|
            0 <= a < b < views@.len() ==> views@[a].retained_view_entity
                != views@[b].retained_view_entity,
    ensures
        final(phases).wf(),
        phases_settled(*final(phases)),
        final(phases).views@.dom() == old(phases).views@.dom(),
        forall|k: int|
            0 <= k < views@.len() && #[trigger] final(phases).views@.contains_key(
                views@[k].retained_view_entity,
            ) ==> queued_view(
                *inputs,
                multi_draw_indirect,
                *cache,
                views@[k],
                old(phases).views@[views@[k].retained_view_entity],
                final(phases).views@[views@[k].retained_view_entity],
            ),
        forall|r: u64|
            #[trigger] old(phases).views@.contains_key(r) && (forall|k: int|
                0 <= k < views@.len() ==> views@[k].retained_view_entity != r) ==> final(phases).views@[r]
                == old(phases).views@[r],
{
    let ghost p0 = *old(phases);
    let mut i: usize = 0;
    while i < views.len()
        invariant
            i <= views@.len(),
            phases.wf(),
            phases_settled(*phases),
            phases.views@.dom() == p0.views@.dom(),
            forall|a: int, b: int|
                0 <= a < b < views@.len() ==> views@[a].retained_view_entity
                    != views@[b].retained_view_entity,
            forall|k: int|
                0 <= k < i && #[trigger] phases.views@.contains_key(views@[k].retained_view_entity)
                    ==> queued_view(
                    *inputs,
                    multi_draw_indirect,
                    *cache,
                    views@[k],
                    p0.views@[views@[k].retained_view_entity],
                    phases.views@[views@[k].retained_view_entity],
                ),
            forall|r: u64|
                #[trigger] p0.views@.contains_key(r) && (forall|k: int|
                    0 <= k < i ==> views@[k].retained_view_entity != r) ==> phases.views@[r]
                    == p0.views@[r],
        decreases views@.len() - i,
    {
        let view = &views[i];
        let retained = view.retained_view_entity;
        let ghost pb = *phases;
        match phases.views.remove(&retained) {
            Some(mut vp) => {
                assert(pb.views@.contains_key(retained));
                queue_view(inputs, multi_draw_indirect, cache, view, &mut vp);
                phases.views.insert(retained, vp);
                proof {
                    assert(phases.views@.dom() =~= p0.views@.dom());
                    assert(pb.views@[retained] == p0.views@[retained]) by {
                        assert forall|k: int| 0 <= k < i implies views@[k].retained_view_entity
                            != retained by {
                            assert(views@[k].retained_view_entity != views@[i as int].retained_view_entity);
                        }
                    }
                    assert forall|k: int|
                        0 <= k < i + 1 && #[trigger] phases.views@.contains_key(
                            views@[k].retained_view_entity,
                        ) implies queued_view(
                        *inputs,
                        multi_draw_indirect,
                        *cache,
                        views@[k],
                        p0.views@[views@[k].retained_view_entity],
                        phases.views@[views@[k].retained_view_entity],
                    ) by {
                        if k < i {
                            assert(views@[k].retained_view_entity != retained);
                            assert(pb.views@.contains_key(views@[k].retained_view_entity));
                        }
                    }
                    assert forall|r: u64|
                        #[trigger] p0.views@.contains_key(r) && (forall|k: int|
                            0 <= k < i + 1 ==> views@[k].retained_view_entity != r) implies phases.views@[r]
                        == p0.views@[r] by {
                        assert(views@[i as int].retained_view_entity != r);
                    }
                }
            },
            None => {
                assert(phases.views@ == pb.views@);
                assert forall|r: u64|
                    #[trigger] p0.views@.contains_key(r) && (forall|k: int|
                        0 <= k < i + 1 ==> views@[k].retained_view_entity != r) implies phases.views@[r]
                    == p0.views@[r] by {
                    assert(views@[i as int].retained_view_entity != r);
                }
            },
        }
        i = i + 1;
    }
}

} // verus!
