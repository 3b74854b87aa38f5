use pbr_material::allocator::{
    prepare_material_bind_groups, MaterialBindGroupAllocator, MaterialBindGroupId,
    MaterialBindingId, SlotState,
};
use pbr_material::key::{
    alpha_mode_pipeline_key, mesh_key, screen_space_specular_transmission_pipeline_key,
    tonemapping_pipeline_key, AlphaMode, InstanceKeyInputs, Msaa, ScreenSpaceTransmissionQuality,
    Tonemapping, BLEND_ALPHA, BLEND_ALPHA_TO_COVERAGE, BLEND_MULTIPLY, BLEND_PREMULTIPLIED_ALPHA,
    HAS_PREVIOUS_MORPH, HAS_PREVIOUS_SKIN, LIGHTMAPPED, LIGHTMAP_BICUBIC_SAMPLING, MAY_DISCARD,
    MOTION_VECTOR_PREPASS, NONE, READS_VIEW_TRANSMISSION_TEXTURE, VISIBILITY_RANGE_DITHER,
};
use pbr_material::material::{
    material_properties, needs_direct_bind_group, render_phase_type, AsBindGroupError,
    DefaultOpaqueRendererMethod, DrawFunctionIds, MaterialDescriptor, OpaqueRendererMethod,
    PrepareAssetError, PreparedBindGroup, PreparedMaterial, RenderMaterialBindings,
    RenderPhaseType,
};
use pbr_material::phase::{
    batch_set_key_less, BatchSetKey, BinnedRenderPhase, BinnedRenderPhaseType, SortedPhaseItem,
    SortedRenderPhase,
    Translation, ViewRangefinder3d,
};
use pbr_material::pipeline::{
    MaterialPipeline, MeshPipeline, PipelineCache, PipelineState, ShaderRef,
    SpecializedMaterialPipelines, SpecializedMeshPipelineError,
};
use pbr_material::key::MaterialPipelineKey;
use pbr_material::specialize::{
    check_entities_needing_specialization, drop_removed_entities, extract_mesh_materials, material_bind_group_for,
    needs_specialization, EntitiesNeedingSpecialization, RenderCommandResult, RenderInputs,
    RenderMaterialInstances, SetMaterialBindGroup, SpecializedMaterialPipelineCache,
    ViewSpecializationTicks,
};
use pbr_material::tick::Tick;
use std::collections::HashMap;

fn draws() -> DrawFunctionIds {
    DrawFunctionIds {
        opaque: 1,
        alpha_mask: 2,
        transmissive: 3,
        transparent: 4,
        opaque_prepass: Some(5),
        alpha_mask_prepass: Some(6),
        opaque_deferred: Some(7),
        alpha_mask_deferred: Some(8),
    }
}

#[test]
fn phase_classification_table() {
    let modes = [
        AlphaMode::Opaque,
        AlphaMode::Mask(0x3f00_0000),
        AlphaMode::Blend,
        AlphaMode::Premultiplied,
        AlphaMode::AlphaToCoverage,
        AlphaMode::Add,
        AlphaMode::Multiply,
    ];
    let plain = [
        RenderPhaseType::Opaque,
        RenderPhaseType::AlphaMask,
        RenderPhaseType::Transparent,
        RenderPhaseType::Transparent,
        RenderPhaseType::Opaque,
        RenderPhaseType::Transparent,
        RenderPhaseType::Transparent,
    ];
    let transmissive = [
        RenderPhaseType::Transmissive,
        RenderPhaseType::Transmissive,
        RenderPhaseType::Transparent,
        RenderPhaseType::Transparent,
        RenderPhaseType::Transmissive,
        RenderPhaseType::Transparent,
        RenderPhaseType::Transparent,
    ];
    for i in 0..modes.len() {
        assert_eq!(render_phase_type(modes[i], false), plain[i]);
        assert_eq!(render_phase_type(modes[i], true), transmissive[i]);
    }
}

#[test]
fn alpha_mode_bits() {
    assert_eq!(alpha_mode_pipeline_key(AlphaMode::Opaque, &Msaa::Sample4), NONE);
    assert_eq!(alpha_mode_pipeline_key(AlphaMode::Premultiplied, &Msaa::Off), BLEND_PREMULTIPLIED_ALPHA);
    assert_eq!(alpha_mode_pipeline_key(AlphaMode::Add, &Msaa::Off), BLEND_PREMULTIPLIED_ALPHA);
    assert_eq!(alpha_mode_pipeline_key(AlphaMode::Blend, &Msaa::Off), BLEND_ALPHA);
    assert_eq!(alpha_mode_pipeline_key(AlphaMode::Multiply, &Msaa::Off), BLEND_MULTIPLY);
    assert_eq!(alpha_mode_pipeline_key(AlphaMode::Mask(0), &Msaa::Sample8), MAY_DISCARD);
    assert_eq!(alpha_mode_pipeline_key(AlphaMode::AlphaToCoverage, &Msaa::Off), MAY_DISCARD);
    assert_eq!(
        alpha_mode_pipeline_key(AlphaMode::AlphaToCoverage, &Msaa::Sample2),
        BLEND_ALPHA_TO_COVERAGE
    );
}

#[test]
fn tonemapping_and_transmission_bits() {
    assert_eq!(tonemapping_pipeline_key(Tonemapping::Disabled), 0);
    assert_eq!(tonemapping_pipeline_key(Tonemapping::Reinhard), 0x1_0000_0000_0000);
    assert_eq!(tonemapping_pipeline_key(Tonemapping::TonyMcMapface), 0x6_0000_0000_0000);
    assert_eq!(tonemapping_pipeline_key(Tonemapping::BlenderFilmic), 0x7_0000_0000_0000);
    assert_eq!(
        screen_space_specular_transmission_pipeline_key(ScreenSpaceTransmissionQuality::Low),
        0
    );
    assert_eq!(
        screen_space_specular_transmission_pipeline_key(ScreenSpaceTransmissionQuality::Ultra),
        0xC000_0000_0000
    );
}

#[test]
fn msaa_round_trip() {
    for s in [1u32, 2, 4, 8] {
        let m = Msaa::from_samples(s);
        assert_eq!(m.samples(), s);
        assert_eq!(Msaa::from_view_key(m.key_bits() | MOTION_VECTOR_PREPASS), m);
    }
}

#[test]
fn mesh_key_composition() {
    let inst = InstanceKeyInputs {
        lightmap: Some(true),
        crossfading_visibility_ranges: true,
        has_previous_skin: true,
        has_previous_morph: true,
    };
    let without_motion = mesh_key(0, 0x40, READS_VIEW_TRANSMISSION_TEXTURE, AlphaMode::Blend, &inst);
    assert_eq!(
        without_motion,
        0x40 | READS_VIEW_TRANSMISSION_TEXTURE | BLEND_ALPHA | LIGHTMAPPED
            | LIGHTMAP_BICUBIC_SAMPLING | VISIBILITY_RANGE_DITHER
    );
    let with_motion = mesh_key(MOTION_VECTOR_PREPASS, 0, 0, AlphaMode::Opaque, &inst);
    assert_eq!(
        with_motion,
        MOTION_VECTOR_PREPASS | LIGHTMAPPED | LIGHTMAP_BICUBIC_SAMPLING | VISIBILITY_RANGE_DITHER
            | HAS_PREVIOUS_SKIN | HAS_PREVIOUS_MORPH
    );
    let plain = InstanceKeyInputs {
        lightmap: Some(false),
        crossfading_visibility_ranges: false,
        has_previous_skin: false,
        has_previous_morph: false,
    };
    assert_eq!(mesh_key(0, 0, 0, AlphaMode::Opaque, &plain), LIGHTMAPPED);
}

#[test]
fn tick_newer_than_with_wraparound() {
    let this_run = Tick::new(5);
    assert!(Tick::new(4).is_newer_than(Tick::new(3), this_run));
    assert!(!Tick::new(3).is_newer_than(Tick::new(4), this_run));
    assert!(!Tick::new(4).is_newer_than(Tick::new(4), this_run));
    assert!(Tick::new(2).is_newer_than(Tick::new(u32::MAX - 2), this_run));
    assert!(!Tick::new(9).is_newer_than(Tick::new(9), Tick::new(9)));
    assert_eq!(Tick::new(1).relative_to(Tick::new(3)).get(), u32::MAX - 1);
}

#[test]
fn needs_specialization_rule() {
    let now = Tick::new(10);
    let t = |x: u32| Some(Tick::new(x));
    assert!(needs_specialization(t(1), t(1), None, now));
    assert!(!needs_specialization(t(3), t(4), Some((Tick::new(5), 0)), now));
    assert!(needs_specialization(t(6), t(4), Some((Tick::new(5), 0)), now));
    assert!(needs_specialization(t(3), t(10), Some((Tick::new(5), 0)), now));
    assert!(!needs_specialization(None, None, Some((Tick::new(5), 0)), now));
    assert!(needs_specialization(None, None, None, now));
    assert!(needs_specialization(None, t(7), Some((Tick::new(5), 0)), now));
}

#[test]
fn view_observation_stamps_only_changed_views() {
    let mut t = ViewSpecializationTicks::new();
    t.observe(1, 0xA, Tick::new(1));
    t.observe(2, 0xB, Tick::new(1));
    t.observe(1, 0xA, Tick::new(2));
    t.observe(2, 0xC, Tick::new(2));
    assert_eq!(t.ticks.get(&1), Some(&Tick::new(1)));
    assert_eq!(t.ticks.get(&2), Some(&Tick::new(2)));
    assert_eq!(t.keys.get(&2), Some(&0xC));
}

#[test]
fn allocator_reuses_freed_groups() {
    let mut a = MaterialBindGroupAllocator::new();
    let x = a.allocate();
    let y = a.allocate();
    assert_eq!(x, MaterialBindingId { group: 0, slot: 0 });
    assert_eq!(y, MaterialBindingId { group: 1, slot: 0 });
    a.init(x, 42);
    assert_eq!(a.extra_data(x), Some(42));
    assert_eq!(a.extra_data(y), None);
    assert_eq!(a.pending_bind_groups(), vec![0]);
    prepare_material_bind_groups(&mut a, &vec![(0, 77)]);
    assert_eq!(a.get(0).unwrap().get_bind_group(), Some(77));
    assert!(a.pending_bind_groups().is_empty());
    a.free(x);
    assert!(a.get(0).is_none());
    assert_eq!(a.extra_data(x), None);
    let z = a.allocate();
    assert_eq!(z, x);
    a.init_custom(z, 99, 5);
    assert_eq!(a.groups[0].state, SlotState::Ready { extra_data: 5, custom_bind_group: Some(99) });
    assert_eq!(a.get(0).unwrap().get_bind_group(), Some(99));
    assert_eq!(MaterialBindGroupId::new(3), MaterialBindGroupId(Some(3)));
}

#[test]
fn prepare_asset_outcomes() {
    let mut a = MaterialBindGroupAllocator::new();
    let mut b = RenderMaterialBindings::new();
    let desc = MaterialDescriptor::new();
    let dm = DefaultOpaqueRendererMethod::forward();
    let r = PreparedMaterial::prepare_asset(&desc, 7, &dm, &draws(), &mut a, &mut b, Err(AsBindGroupError::RetryNextUpdate), None);
    assert_eq!(r, Err(PrepareAssetError::RetryNextUpdate));
    let binding = b.get(7).unwrap();
    assert_eq!(a.groups[binding.group as usize].state, SlotState::Reserved);
    let r = PreparedMaterial::prepare_asset(&desc, 7, &dm, &draws(), &mut a, &mut b, Err(AsBindGroupError::InvalidData), None);
    assert_eq!(r, Err(PrepareAssetError::AsBindGroupError(AsBindGroupError::InvalidData)));
    let unprepared: Result<u64, AsBindGroupError> = Err(AsBindGroupError::CreateBindGroupDirectly);
    assert!(needs_direct_bind_group(&unprepared));
    assert!(!needs_direct_bind_group(&Ok(1)));
    let r = PreparedMaterial::prepare_asset(
        &desc, 7, &dm, &draws(), &mut a, &mut b, unprepared,
        Some(Err(AsBindGroupError::RetryNextUpdate)),
    );
    assert_eq!(r, Err(PrepareAssetError::RetryNextUpdate));
    let r = PreparedMaterial::prepare_asset(
        &desc, 7, &dm, &draws(), &mut a, &mut b, unprepared,
        Some(Ok(PreparedBindGroup { bind_group: 55, data: 9 })),
    )
    .unwrap();
    assert_eq!(r.binding, binding);
    assert_eq!(r.properties.draw_function_id, 1);
    assert_eq!(r.properties.prepass_draw_function_id, Some(5));
    assert_eq!(r.properties.deferred_draw_function_id, Some(7));
    assert_eq!(a.extra_data(binding), Some(9));
    assert_eq!(a.get(binding.group).unwrap().get_bind_group(), Some(55));
    PreparedMaterial::unload_asset(7, &mut a, &mut b);
    assert_eq!(b.get(7), None);
    assert!(a.get(binding.group).is_none());
    PreparedMaterial::unload_asset(7, &mut a, &mut b);
}

#[test]
fn material_properties_by_phase() {
    let dm = DefaultOpaqueRendererMethod::forward();
    let mut m = MaterialDescriptor::new();
    m.alpha_mode = AlphaMode::Mask(0);
    let p = material_properties(&m, &dm, &draws());
    assert_eq!(p.render_phase_type, RenderPhaseType::AlphaMask);
    assert_eq!(p.draw_function_id, 2);
    assert_eq!(p.prepass_draw_function_id, Some(6));
    assert_eq!(p.deferred_draw_function_id, Some(8));
    assert_eq!(p.mesh_pipeline_key_bits, 0);
    m.alpha_mode = AlphaMode::Multiply;
    m.reads_view_transmission_texture = true;
    let p = material_properties(&m, &dm, &draws());
    assert_eq!(p.render_phase_type, RenderPhaseType::Transparent);
    assert_eq!(p.draw_function_id, 4);
    assert_eq!(p.prepass_draw_function_id, None);
    assert_eq!(p.mesh_pipeline_key_bits, READS_VIEW_TRANSMISSION_TEXTURE);
    let mut d = DefaultOpaqueRendererMethod::forward();
    d.set_to_deferred();
    m.opaque_render_method = OpaqueRendererMethod::Auto;
    assert_eq!(material_properties(&m, &d, &draws()).render_method, OpaqueRendererMethod::Deferred);
    d.set_to_forward();
    assert_eq!(material_properties(&m, &d, &draws()).render_method, OpaqueRendererMethod::Forward);
}

#[test]
fn pipeline_cache_states() {
    let mut c = PipelineCache::new();
    let mut p = SpecializedMaterialPipelines::new();
    let fam = MaterialPipeline::from_world(
        MeshPipeline { view_layout: 1, mesh_layout: 2, vertex_shader: 3, fragment_shader: 4 },
        5,
        ShaderRef::Handle(6),
        ShaderRef::Default,
        true,
        0b10,
    );
    let key = MaterialPipelineKey { mesh_key: 1, bind_group_data: 2 };
    assert_eq!(p.specialize(&mut c, &fam, key, 0b01), Err(SpecializedMeshPipelineError::MissingVertexAttribute(0b10)));
    let id = p.specialize(&mut c, &fam, key, 0b11).unwrap();
    assert_eq!(p.specialize(&mut c, &fam, key, 0b11), Ok(id));
    let other = p.specialize(&mut c, &fam, MaterialPipelineKey { mesh_key: 1, bind_group_data: 3 }, 0b11).unwrap();
    assert_ne!(id, other);
    assert_eq!(c.descriptors[0].vertex_shader, 6);
    assert_eq!(c.descriptors[0].fragment_shader, 4);
    assert!(c.descriptors[0].bindless);
    assert_eq!(c.pending(), vec![0, 1]);
    assert_eq!(c.get_render_pipeline(id), None);
    c.set_state(id, PipelineState::Ready(1234));
    assert_eq!(c.get_render_pipeline(id), Some(1234));
    assert_eq!(c.pending(), vec![1]);
}

#[test]
fn binned_phase_validate_add_sweep() {
    let mut ph = BinnedRenderPhase::new();
    let key = BatchSetKey { pipeline: 0, draw_function: 1, material_bind_group_index: Some(0), vertex_slab: 0, index_slab: None, lightmap_slab: None };
    ph.add(key, 9, (100, 1), BinnedRenderPhaseType::mesh(true, false), Tick::new(3));
    ph.add(key, 9, (101, 2), BinnedRenderPhaseType::mesh(false, true), Tick::new(3));
    assert_eq!(ph.entities.get(&1).unwrap().phase_type, BinnedRenderPhaseType::BatchableMesh);
    assert_eq!(ph.entities.get(&2).unwrap().phase_type, BinnedRenderPhaseType::UnbatchableMesh);
    ph.sweep_old_entities();
    assert_eq!(ph.entities.len(), 2);
    assert!(ph.validate_cached_entity(1, Tick::new(3)));
    assert!(!ph.validate_cached_entity(2, Tick::new(4)));
    assert!(!ph.validate_cached_entity(3, Tick::new(3)));
    ph.sweep_old_entities();
    assert!(ph.entities.get(&1).is_some());
    assert!(ph.entities.get(&2).is_none());
    assert_eq!(ph.order, vec![1]);
    assert!(!ph.entities.get(&1).unwrap().valid);
}

#[test]
fn sorted_phase_keeps_ties_in_insertion_order() {
    let mut ph = SortedRenderPhase::new();
    let item = |e: u64, d: i128| SortedPhaseItem { render_entity: e, main_entity: e, draw_function: 0, pipeline: 0, distance: d, indexed: false };
    ph.add(item(1, 5));
    ph.add(item(2, -3));
    ph.add(item(3, 5));
    ph.add(item(4, 0));
    let order: Vec<u64> = ph.items.iter().map(|i| i.main_entity).collect();
    assert_eq!(order, vec![2, 4, 1, 3]);
    ph.clear();
    assert!(ph.items.is_empty());
}

#[test]
fn rangefinder_depth() {
    let r = ViewRangefinder3d { x: 1, y: -2, z: 3, w: 4 };
    assert_eq!(r.distance_translation(&Translation { x: 10, y: 20, z: 30 }), 10 - 40 + 90 + 4);
    let big = ViewRangefinder3d { x: i32::MIN, y: i32::MIN, z: i32::MIN, w: i32::MIN };
    let t = Translation { x: i32::MIN, y: i32::MIN, z: i32::MIN };
    assert_eq!(big.distance_translation(&t), 3 * (1i128 << 62) - (1i128 << 31));
}

#[test]
fn extraction_of_material_instances() {
    let mut inst = RenderMaterialInstances::new();
    inst.map.insert(1, 10);
    inst.map.insert(2, 20);
    inst.map.insert(3, 30);
    extract_mesh_materials(&mut inst, &vec![(4, true, 40), (2, false, 20), (4, true, 41)], &vec![3, 4]);
    assert_eq!(inst.map.get(&1), Some(&10));
    assert_eq!(inst.map.get(&2), None);
    assert_eq!(inst.map.get(&3), None);
    assert_eq!(inst.map.get(&4), Some(&41));
    let mut needing = EntitiesNeedingSpecialization::new();
    needing.entities.push(99);
    check_entities_needing_specialization(&vec![5, 6], &mut needing);
    assert_eq!(needing.entities, vec![5, 6]);
}

#[test]
fn bind_group_for_drawing() {
    let mut a = MaterialBindGroupAllocator::new();
    let mut b = RenderMaterialBindings::new();
    let desc = MaterialDescriptor::new();
    let dm = DefaultOpaqueRendererMethod::forward();
    let prepared = PreparedMaterial::prepare_asset(&desc, 7, &dm, &draws(), &mut a, &mut b, Ok(3), None).unwrap();
    let mut inputs = RenderInputs {
        meshes: HashMap::new(),
        mesh_instances: HashMap::new(),
        materials: HashMap::new(),
        material_instances: RenderMaterialInstances::new(),
    };
    inputs.materials.insert(7, prepared);
    inputs.material_instances.map.insert(1, 7);
    assert_eq!(material_bind_group_for(1, &inputs, &a), None);
    let pending = a.pending_bind_groups();
    assert_eq!(pending, vec![prepared.binding.group]);
    a.set_bind_group(pending[0], 808);
    assert_eq!(material_bind_group_for(1, &inputs, &a), Some(808));
    assert_eq!(material_bind_group_for(2, &inputs, &a), None);
    let cmd = SetMaterialBindGroup { index: 2 };
    assert_eq!(cmd.render(1, &inputs, &a), RenderCommandResult::SetBindGroup { index: 2, bind_group: 808 });
    assert_eq!(cmd.render(2, &inputs, &a), RenderCommandResult::Skip);
}

#[test]
fn cache_entries_of_removed_entity_are_dropped() {
    let mut c = SpecializedMaterialPipelineCache::new();
    c.insert(1, 5, (Tick::new(1), 0));
    c.insert(2, 5, (Tick::new(1), 1));
    c.insert(1, 6, (Tick::new(1), 2));
    c.remove_entity(&vec![1, 2], 5);
    assert_eq!(c.get(1, 5), None);
    assert_eq!(c.get(2, 5), None);
    assert_eq!(c.get(1, 6), Some((Tick::new(1), 2)));
    c.insert(2, 7, (Tick::new(2), 3));
    drop_removed_entities(&mut c, &vec![1, 2], &vec![6, 9]);
    assert_eq!(c.get(1, 6), None);
    assert_eq!(c.get(2, 7), Some((Tick::new(2), 3)));
}

#[test]
fn batch_sets_are_distinct_and_ordered() {
    let mut ph = BinnedRenderPhase::new();
    let k = |pipeline: u32, index_slab: Option<u32>| BatchSetKey {
        pipeline,
        draw_function: 1,
        material_bind_group_index: Some(0),
        vertex_slab: 0,
        index_slab,
        lightmap_slab: None,
    };
    let t = BinnedRenderPhaseType::BatchableMesh;
    ph.add(k(3, None), 1, (10, 1), t, Tick::new(1));
    ph.add(k(1, Some(2)), 1, (11, 2), t, Tick::new(1));
    ph.add(k(3, None), 2, (12, 3), t, Tick::new(1));
    ph.add(k(1, None), 2, (13, 4), t, Tick::new(1));
    ph.add(k(2, Some(0)), 2, (14, 5), t, Tick::new(1));
    assert_eq!(ph.batch_sets(), vec![k(1, None), k(1, Some(2)), k(2, Some(0)), k(3, None)]);
    assert!(batch_set_key_less(&k(1, None), &k(1, Some(0))));
    assert!(!batch_set_key_less(&k(1, Some(0)), &k(1, Some(0))));
    let mut sorted = vec![k(3, None), k(1, Some(2)), k(1, None), k(2, Some(0))];
    sorted.sort();
    assert_eq!(sorted, ph.batch_sets());
}
