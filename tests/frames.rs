use pbr_material::allocator::MaterialBindGroupAllocator;
use pbr_material::key::{AlphaMode, InstanceKeyInputs, MaterialPipelineKey, MOTION_VECTOR_PREPASS};
use pbr_material::material::{
    AsBindGroupError, DefaultOpaqueRendererMethod, DrawFunctionIds, MaterialDescriptor,
    OpaqueRendererMethod, PreparedMaterial, RenderMaterialBindings,
};
use pbr_material::phase::{Translation, ViewPhases, ViewRangefinder3d, ViewRenderPhases};
use pbr_material::pipeline::{
    MaterialPipeline, MeshPipeline, PipelineCache, ShaderRef, SpecializedMaterialPipelines,
    SpecializedMeshPipelineError,
};
use pbr_material::queue::queue_material_meshes;
use pbr_material::specialize::{
    extract_entities_needs_specialization, specialize_material_meshes,
    EntitiesNeedingSpecialization, EntitySpecializationTicks, ExtractedView, RenderInputs,
    RenderMaterialInstances, RenderMesh, RenderMeshQueueData, SpecializedMaterialPipelineCache,
    ViewSpecializationTicks,
};
use pbr_material::tick::Tick;
use std::collections::HashMap;

const MSAA_4: u64 = 0x4000_0000_0000_0000;

fn draw_ids() -> DrawFunctionIds {
    DrawFunctionIds {
        opaque: 1,
        alpha_mask: 2,
        transmissive: 3,
        transparent: 4,
        opaque_prepass: Some(5),
        alpha_mask_prepass: Some(6),
        opaque_deferred: None,
        alpha_mask_deferred: None,
    }
}

fn family() -> MaterialPipeline {
    let mesh_pipeline = MeshPipeline { view_layout: 10, mesh_layout: 11, vertex_shader: 12, fragment_shader: 13 };
    MaterialPipeline::from_world(mesh_pipeline, 14, ShaderRef::Default, ShaderRef::Handle(15), false, 0b1)
}

struct World {
    inputs: RenderInputs,
    allocator: MaterialBindGroupAllocator,
    bindings: RenderMaterialBindings,
    pipelines: SpecializedMaterialPipelines,
    pipeline_cache: PipelineCache,
    cache: SpecializedMaterialPipelineCache,
    view_ticks: ViewSpecializationTicks,
    entity_ticks: EntitySpecializationTicks,
    phases: ViewRenderPhases,
    pipeline: MaterialPipeline,
    frame: u32,
}

impl World {
    fn new() -> World {
        let mut inputs = RenderInputs {
            meshes: HashMap::new(),
            mesh_instances: HashMap::new(),
            materials: HashMap::new(),
            material_instances: RenderMaterialInstances::new(),
        };
        inputs.meshes.insert(
            500,
            RenderMesh { key_bits: 0x40, layout: 0b11, vertex_slab: Some(2), index_slab: Some(3) },
        );
        World {
            inputs,
            allocator: MaterialBindGroupAllocator::new(),
            bindings: RenderMaterialBindings::new(),
            pipelines: SpecializedMaterialPipelines::new(),
            pipeline_cache: PipelineCache::new(),
            cache: SpecializedMaterialPipelineCache::new(),
            view_ticks: ViewSpecializationTicks::new(),
            entity_ticks: EntitySpecializationTicks::new(),
            phases: ViewRenderPhases::new(),
            pipeline: family(),
            frame: 1,
        }
    }

    fn add_material(&mut self, id: u64, alpha_mode: AlphaMode, extra: u64) {
        let desc = MaterialDescriptor {
            alpha_mode,
            opaque_render_method: OpaqueRendererMethod::Forward,
            depth_bias: 0,
            reads_view_transmission_texture: false,
        };
        let prepared = PreparedMaterial::prepare_asset(
            &desc,
            id,
            &DefaultOpaqueRendererMethod::forward(),
            &draw_ids(),
            &mut self.allocator,
            &mut self.bindings,
            Ok(extra),
            None,
        )
        .unwrap();
        self.inputs.materials.insert(id, prepared);
    }

    fn add_entity(&mut self, e: u64, material: u64, z: i32) {
        self.inputs.material_instances.map.insert(e, material);
        self.inputs.mesh_instances.insert(
            e,
            RenderMeshQueueData {
                mesh_asset_id: 500,
                translation: Translation { x: 0, y: 0, z },
                key_inputs: InstanceKeyInputs {
                    lightmap: None,
                    crossfading_visibility_ranges: false,
                    has_previous_skin: false,
                    has_previous_morph: false,
                },
                should_batch: true,
                lightmap_slab_index: None,
            },
        );
    }

    /// Runs one frame: stamps changed entities and views, then specializes
    /// and queues.
    fn run(
        &mut self,
        views: &Vec<ExtractedView>,
        view_keys: &[(u64, u64)],
        changed: Vec<u64>,
    ) -> Vec<(u64, u64, SpecializedMeshPipelineError)> {
        let this_run = Tick::new(self.frame);
        for &(v, k) in view_keys {
            self.view_ticks.observe(v, k, this_run);
        }
        let needing = EntitiesNeedingSpecialization { entities: changed };
        extract_entities_needs_specialization(&needing, &mut self.entity_ticks, this_run);
        for v in views {
            self.phases.insert_or_clear(v.retained_view_entity);
        }
        let rejected = specialize_material_meshes(
            &self.inputs,
            &self.allocator,
            &self.phases,
            views,
            &self.view_ticks,
            &self.entity_ticks,
            &mut self.cache,
            &mut self.pipelines,
            &self.pipeline,
            &mut self.pipeline_cache,
            this_run,
        );
        queue_material_meshes(&self.inputs, true, &mut self.phases, views, &self.cache);
        self.frame += 1;
        rejected
    }

    fn view_phases(&self, retained: u64) -> &ViewPhases {
        self.phases.views.get(&retained).unwrap()
    }
}

fn view(main: u64, retained: u64, visible: Vec<u64>) -> ExtractedView {
    ExtractedView {
        main_entity: main,
        retained_view_entity: retained,
        rangefinder: ViewRangefinder3d { x: 0, y: 0, z: 1, w: 0 },
        visible: visible.into_iter().map(|e| (e + 1000, e)).collect(),
    }
}

#[test]
fn opaque_entity_first_frame_is_cached_and_binned_opaque() {
    let mut w = World::new();
    w.add_material(100, AlphaMode::Opaque, 7);
    w.add_entity(1, 100, 5);
    let views = vec![view(900, 90, vec![1])];
    assert_eq!(w.cache.get(900, 1), None);
    assert!(w.run(&views, &[(900, MSAA_4)], vec![1]).is_empty());
    let (tick, id) = w.cache.get(900, 1).expect("cached after one pass");
    assert_eq!(tick, Tick::new(1));
    assert_eq!(w.pipeline_cache.states.len(), 1);
    assert_eq!(id, 0);
    let ph = w.view_phases(90);
    let entry = ph.opaque.entities.get(&1).expect("binned opaque");
    assert_eq!(entry.batch_set_key.pipeline, id);
    assert_eq!(entry.batch_set_key.draw_function, 1);
    assert_eq!(entry.bin_key, 500);
    assert_eq!(entry.change_tick, Tick::new(1));
    assert!(ph.alpha_mask.entities.get(&1).is_none());
    assert!(ph.transparent.items.is_empty());
    assert!(ph.transmissive.items.is_empty());
    let d = &w.pipeline_cache.descriptors[0];
    assert_eq!(d.layout, vec![10, 11, 14]);
    assert_eq!(d.vertex_shader, 12);
    assert_eq!(d.fragment_shader, 15);
    assert_eq!(d.key, MaterialPipelineKey { mesh_key: MSAA_4 | 0x40, bind_group_data: 7 });
}

#[test]
fn unchanged_pair_keeps_its_pipeline_without_new_requests() {
    let mut w = World::new();
    w.add_material(100, AlphaMode::Opaque, 7);
    w.add_entity(1, 100, 5);
    let views = vec![view(900, 90, vec![1])];
    w.run(&views, &[(900, MSAA_4)], vec![1]);
    let first = w.cache.get(900, 1).unwrap();
    w.run(&views, &[(900, MSAA_4)], vec![]);
    w.run(&views, &[(900, MSAA_4)], vec![]);
    assert_eq!(w.cache.get(900, 1).unwrap(), first);
    assert_eq!(w.pipeline_cache.states.len(), 1);
    assert_eq!(w.pipelines.entries.len(), 1);
    assert!(w.view_phases(90).opaque.entities.get(&1).is_some());
}

#[test]
fn material_swap_to_blend_moves_entity_to_transparent() {
    let mut w = World::new();
    w.add_material(100, AlphaMode::Opaque, 7);
    w.add_material(101, AlphaMode::Blend, 8);
    w.add_entity(1, 100, 5);
    let views = vec![view(900, 90, vec![1])];
    w.run(&views, &[(900, MSAA_4)], vec![1]);
    assert!(w.view_phases(90).opaque.entities.get(&1).is_some());
    w.inputs.material_instances.map.insert(1, 101);
    w.run(&views, &[(900, MSAA_4)], vec![1]);
    let (tick, id) = w.cache.get(900, 1).unwrap();
    assert_eq!(tick, Tick::new(2));
    assert_eq!(id, 1);
    let ph = w.view_phases(90);
    assert!(ph.opaque.entities.get(&1).is_none());
    assert!(ph.alpha_mask.entities.get(&1).is_none());
    assert_eq!(ph.transparent.items.len(), 1);
    assert_eq!(ph.transparent.items[0].main_entity, 1);
    assert_eq!(ph.transparent.items[0].pipeline, 1);
    assert_eq!(ph.transparent.items[0].distance, 5);
    assert_eq!(ph.transparent.items[0].draw_function, 4);
}

#[test]
fn transparent_items_sorted_back_to_front() {
    let mut w = World::new();
    w.add_material(101, AlphaMode::Blend, 8);
    w.add_entity(1, 101, 30);
    w.add_entity(2, 101, -10);
    w.add_entity(3, 101, 30);
    w.add_entity(4, 101, 0);
    let views = vec![view(900, 90, vec![1, 2, 3, 4])];
    w.run(&views, &[(900, MSAA_4)], vec![1, 2, 3, 4]);
    let order: Vec<u64> = w.view_phases(90).transparent.items.iter().map(|i| i.main_entity).collect();
    assert_eq!(order, vec![2, 4, 1, 3]);
    assert_eq!(w.pipeline_cache.states.len(), 1);
}

#[test]
fn two_views_share_one_variant_and_msaa_change_invalidates_one_view() {
    let mut w = World::new();
    w.add_material(100, AlphaMode::AlphaToCoverage, 7);
    w.add_entity(1, 100, 5);
    let views = vec![view(900, 90, vec![1]), view(901, 91, vec![1])];
    w.run(&views, &[(900, MSAA_4), (901, MSAA_4)], vec![1]);
    let a = w.cache.get(900, 1).unwrap();
    let b = w.cache.get(901, 1).unwrap();
    assert_eq!(a.1, b.1);
    assert_eq!(w.pipeline_cache.states.len(), 1);
    w.run(&views, &[(900, 0), (901, MSAA_4)], vec![]);
    let a2 = w.cache.get(900, 1).unwrap();
    let b2 = w.cache.get(901, 1).unwrap();
    assert_eq!(a2.0, Tick::new(2));
    assert_ne!(a2.1, a.1);
    assert_eq!(b2, b);
    assert_eq!(w.pipeline_cache.states.len(), 2);
}

#[test]
fn entity_leaving_view_is_swept_from_binned_phase() {
    let mut w = World::new();
    w.add_material(100, AlphaMode::Opaque, 7);
    w.add_material(102, AlphaMode::Mask(0x3f00_0000), 9);
    w.add_entity(1, 100, 5);
    w.add_entity(2, 102, 6);
    w.run(&vec![view(900, 90, vec![1, 2])], &[(900, 0)], vec![1, 2]);
    assert!(w.view_phases(90).opaque.entities.get(&1).is_some());
    assert!(w.view_phases(90).alpha_mask.entities.get(&2).is_some());
    w.run(&vec![view(900, 90, vec![])], &[(900, 0)], vec![]);
    assert!(w.view_phases(90).opaque.entities.is_empty());
    assert!(w.view_phases(90).alpha_mask.entities.is_empty());
}

#[test]
fn entity_without_prepared_material_is_retried_next_frame() {
    let mut w = World::new();
    w.add_entity(1, 100, 5);
    let views = vec![view(900, 90, vec![1])];
    w.run(&views, &[(900, 0)], vec![1]);
    assert_eq!(w.cache.get(900, 1), None);
    assert!(w.view_phases(90).opaque.entities.is_empty());
    w.add_material(100, AlphaMode::Opaque, 7);
    w.run(&views, &[(900, 0)], vec![]);
    assert_eq!(w.cache.get(900, 1).unwrap().0, Tick::new(2));
    assert!(w.view_phases(90).opaque.entities.get(&1).is_some());
}

#[test]
fn mesh_missing_attributes_is_rejected_and_skipped() {
    let mut w = World::new();
    w.pipeline = MaterialPipeline::from_world(
        MeshPipeline { view_layout: 10, mesh_layout: 11, vertex_shader: 12, fragment_shader: 13 },
        14,
        ShaderRef::Default,
        ShaderRef::Default,
        true,
        0b100,
    );
    w.add_material(100, AlphaMode::Opaque, 7);
    w.add_entity(1, 100, 5);
    let views = vec![view(900, 90, vec![1])];
    let rejected = w.run(&views, &[(900, 0)], vec![1]);
    assert_eq!(rejected, vec![(900, 1, SpecializedMeshPipelineError::MissingVertexAttribute(0b100))]);
    assert_eq!(w.cache.get(900, 1), None);
    assert_eq!(w.pipeline_cache.states.len(), 0);
    assert!(w.view_phases(90).opaque.entities.is_empty());
}

#[test]
fn deferred_opaque_material_is_not_queued_forward() {
    let mut w = World::new();
    let desc = MaterialDescriptor {
        alpha_mode: AlphaMode::Opaque,
        opaque_render_method: OpaqueRendererMethod::Auto,
        depth_bias: 0,
        reads_view_transmission_texture: false,
    };
    let prepared = PreparedMaterial::prepare_asset(
        &desc,
        100,
        &DefaultOpaqueRendererMethod::deferred(),
        &draw_ids(),
        &mut w.allocator,
        &mut w.bindings,
        Ok(7),
        None,
    )
    .unwrap();
    assert_eq!(prepared.properties.render_method, OpaqueRendererMethod::Deferred);
    w.inputs.materials.insert(100, prepared);
    w.add_entity(1, 100, 5);
    let views = vec![view(900, 90, vec![1])];
    w.run(&views, &[(900, 0)], vec![1]);
    assert!(w.cache.get(900, 1).is_some());
    assert!(w.view_phases(90).opaque.entities.is_empty());
}

#[test]
fn transmissive_material_goes_to_transmissive_phase_with_bias() {
    let mut w = World::new();
    let desc = MaterialDescriptor {
        alpha_mode: AlphaMode::Opaque,
        opaque_render_method: OpaqueRendererMethod::Forward,
        depth_bias: 3,
        reads_view_transmission_texture: true,
    };
    let prepared = PreparedMaterial::prepare_asset(
        &desc,
        100,
        &DefaultOpaqueRendererMethod::forward(),
        &draw_ids(),
        &mut w.allocator,
        &mut w.bindings,
        Ok(7),
        None,
    )
    .unwrap();
    w.inputs.materials.insert(100, prepared);
    w.add_entity(1, 100, 5);
    let views = vec![view(900, 90, vec![1])];
    w.run(&views, &[(900, MOTION_VECTOR_PREPASS)], vec![1]);
    let ph = w.view_phases(90);
    assert_eq!(ph.transmissive.items.len(), 1);
    assert_eq!(ph.transmissive.items[0].distance, 8);
    assert_eq!(ph.transmissive.items[0].draw_function, 3);
    assert!(ph.transmissive.items[0].indexed);
    assert!(ph.opaque.entities.is_empty());
}

#[test]
fn distinct_materials_with_equal_keys_share_a_variant() {
    let mut w = World::new();
    w.add_material(100, AlphaMode::Opaque, 7);
    w.add_material(101, AlphaMode::Opaque, 7);
    w.add_material(102, AlphaMode::Opaque, 8);
    w.add_entity(1, 100, 5);
    w.add_entity(2, 101, 6);
    w.add_entity(3, 102, 7);
    let views = vec![view(900, 90, vec![1, 2, 3])];
    w.run(&views, &[(900, 0)], vec![1, 2, 3]);
    let a = w.cache.get(900, 1).unwrap().1;
    let b = w.cache.get(900, 2).unwrap().1;
    let c = w.cache.get(900, 3).unwrap().1;
    assert_eq!(a, b);
    assert_ne!(a, c);
    assert_eq!(w.pipeline_cache.states.len(), 2);
}

#[test]
fn entity_change_invalidates_only_that_entity() {
    let mut w = World::new();
    w.add_material(100, AlphaMode::Opaque, 7);
    w.add_entity(1, 100, 5);
    w.add_entity(2, 100, 6);
    let views = vec![view(900, 90, vec![1, 2]), view(901, 91, vec![1, 2])];
    w.run(&views, &[(900, 0), (901, 0)], vec![1, 2]);
    w.run(&views, &[(900, 0), (901, 0)], vec![1]);
    assert_eq!(w.cache.get(900, 1).unwrap().0, Tick::new(2));
    assert_eq!(w.cache.get(901, 1).unwrap().0, Tick::new(2));
    assert_eq!(w.cache.get(900, 2).unwrap().0, Tick::new(1));
    assert_eq!(w.cache.get(901, 2).unwrap().0, Tick::new(1));
    assert_eq!(w.pipeline_cache.states.len(), 1);
    let ph = w.view_phases(90);
    assert_eq!(ph.opaque.entities.get(&1).unwrap().change_tick, Tick::new(2));
    assert_eq!(ph.opaque.entities.get(&2).unwrap().change_tick, Tick::new(1));
}

#[test]
fn entity_without_tick_is_specialized_once() {
    let mut w = World::new();
    w.add_material(100, AlphaMode::Opaque, 7);
    w.add_entity(1, 100, 5);
    let views = vec![view(900, 90, vec![1])];
    w.run(&views, &[(900, 0)], vec![]);
    assert_eq!(w.cache.get(900, 1).unwrap().0, Tick::new(1));
    w.run(&views, &[(900, 0)], vec![]);
    assert_eq!(w.cache.get(900, 1).unwrap().0, Tick::new(1));
    assert!(w.view_phases(90).opaque.entities.get(&1).is_some());
}

#[test]
fn unchanged_frame_queues_no_pipeline_and_keeps_bins() {
    let mut w = World::new();
    w.add_material(100, AlphaMode::Opaque, 7);
    w.add_entity(1, 100, 5);
    let views = vec![view(900, 90, vec![1])];
    w.run(&views, &[(900, 0)], vec![1]);
    let before = w.view_phases(90).opaque.entities.get(&1).copied().unwrap();
    let states = w.pipeline_cache.states.clone();
    w.run(&views, &[(900, 0)], vec![]);
    assert_eq!(w.pipeline_cache.states, states);
    assert_eq!(w.view_phases(90).opaque.entities.get(&1).copied().unwrap(), before);
}
