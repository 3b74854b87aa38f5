//! Prepared materials: render method, phase classification, draw functions
//! and the binding of each material instance, kept in step with the
//! bind-group allocator as materials are prepared and unloaded.
use vstd::prelude::*;
use std::collections::HashMap;
use crate::allocator::{MaterialBindGroupAllocator, MaterialBindingId, SlotState};
use crate::key::{AlphaMode, READS_VIEW_TRANSMISSION_TEXTURE};

verus! {

broadcast use vstd::std_specs::hash::group_hash_axioms;

/// How opaque materials are rendered. `Auto` defers to the renderer's
/// default.
#[derive(Clone, Copy, Debug, PartialEq, Eq, Structural)]
pub enum OpaqueRendererMethod {
    Forward,
    Deferred,
    Auto,
}

/// The render method used for opaque materials that ask for `Auto`.
#[derive(Clone, Copy, Debug, PartialEq, Eq, Structural)]
pub struct DefaultOpaqueRendererMethod(pub OpaqueRendererMethod);

impl DefaultOpaqueRendererMethod {
    pub fn forward() -> (r: Self)
        ensures
            r.0 == OpaqueRendererMethod::Forward,
    {
        DefaultOpaqueRendererMethod(OpaqueRendererMethod::Forward)
    }

    pub fn deferred() -> (r: Self)
        ensures
            r.0 == OpaqueRendererMethod::Deferred,
    {
        DefaultOpaqueRendererMethod(OpaqueRendererMethod::Deferred)
    }

    pub fn set_to_forward(&mut self)
        ensures
            final(self).0 == OpaqueRendererMethod::Forward,
    {
        self.0 = OpaqueRendererMethod::Forward;
    }

    pub fn set_to_deferred(&mut self)
        ensures
            final(self).0 == OpaqueRendererMethod::Deferred,
    {
        self.0 = OpaqueRendererMethod::Deferred;
    }
}

/// The render phase that a material's drawables go to.
#[derive(Clone, Copy, Debug, PartialEq, Eq, Structural)]
pub enum RenderPhaseType {
    Opaque,
    AlphaMask,
    Transmissive,
    Transparent,
}

/// Blending modes go to the transparent phase whatever else holds; any
/// other mode goes to the transmissive phase when the material reads the
/// view's transmission texture; otherwise opaque and alpha-to-coverage go to
/// the opaque phase and masked materials to the alpha-mask phase.
pub open spec fn phase_of(alpha_mode: AlphaMode, reads_transmission: bool) -> RenderPhaseType {
    match alpha_mode {
        AlphaMode::Blend | AlphaMode::Premultiplied | AlphaMode::Add | AlphaMode::Multiply => {
            RenderPhaseType::Transparent
        },
        AlphaMode::Opaque | AlphaMode::AlphaToCoverage => if reads_transmission {
            RenderPhaseType::Transmissive
        } else {
            RenderPhaseType::Opaque
        },
        AlphaMode::Mask(_) => if reads_transmission {
            RenderPhaseType::Transmissive
        } else {
            RenderPhaseType::AlphaMask
        },
    }
}

pub fn render_phase_type(alpha_mode: AlphaMode, reads_view_transmission_texture: bool) -> (r:
    RenderPhaseType)
    ensures
        r == phase_of(alpha_mode, reads_view_transmission_texture),
{
    match alpha_mode {
        AlphaMode::Blend | AlphaMode::Premultiplied | AlphaMode::Add | AlphaMode::Multiply => {
            RenderPhaseType::Transparent
        },
        _ if reads_view_transmission_texture => RenderPhaseType::Transmissive,
        AlphaMode::Opaque | AlphaMode::AlphaToCoverage => RenderPhaseType::Opaque,
        AlphaMode::Mask(_) => RenderPhaseType::AlphaMask,
    }
}

/// What a material asset states about itself.
#[derive(Clone, Copy, Debug, PartialEq, Eq, Structural)]
pub struct MaterialDescriptor {
    pub alpha_mode: AlphaMode,
    pub opaque_render_method: OpaqueRendererMethod,
    /// Added to the view depth of the material's drawables, in the units of
    /// view-space distance.
    pub depth_bias: i64,
    pub reads_view_transmission_texture: bool,
}

impl MaterialDescriptor {
    /// An opaque, forward-rendered material with no depth bias that does
    /// not read the transmission texture.
    pub fn new() -> (r: Self)
        ensures
            r.alpha_mode == AlphaMode::Opaque,
            r.opaque_render_method == OpaqueRendererMethod::Forward,
            r.depth_bias == 0,
            !r.reads_view_transmission_texture,
    {
        MaterialDescriptor {
            alpha_mode: AlphaMode::Opaque,
            opaque_render_method: OpaqueRendererMethod::Forward,
            depth_bias: 0,
            reads_view_transmission_texture: false,
        }
    }
}

/// The draw functions registered for materials, per phase; the prepass
/// and deferred ones exist only where those passes are set up.
#[derive(Clone, Copy, Debug, PartialEq, Eq, Structural)]
pub struct DrawFunctionIds {
    pub opaque: u32,
    pub alpha_mask: u32,
    pub transmissive: u32,
    pub transparent: u32,
    pub opaque_prepass: Option<u32>,
    pub alpha_mask_prepass: Option<u32>,
    pub opaque_deferred: Option<u32>,
    pub alpha_mask_deferred: Option<u32>,
}

/// Properties of a material instance, computed once when it is prepared.
#[derive(Clone, Copy, Debug, PartialEq, Eq, Structural)]
pub struct MaterialProperties {
    pub render_method: OpaqueRendererMethod,
    pub alpha_mode: AlphaMode,
    /// The material's own bits of the mesh pipeline key.
    pub mesh_pipeline_key_bits: u64,
    pub depth_bias: i64,
    pub reads_view_transmission_texture: bool,
    pub render_phase_type: RenderPhaseType,
    pub draw_function_id: u32,
    pub prepass_draw_function_id: Option<u32>,
    pub deferred_draw_function_id: Option<u32>,
}

pub open spec fn resolved_method(
    m: OpaqueRendererMethod,
    default_method: OpaqueRendererMethod,
) -> OpaqueRendererMethod {
    match m {
        OpaqueRendererMethod::Auto => default_method,
        _ => m,
    }
}

pub open spec fn properties_of(
    material: MaterialDescriptor,
    default_method: OpaqueRendererMethod,
    draw: DrawFunctionIds,
) -> MaterialProperties {
    let phase = phase_of(material.alpha_mode, material.reads_view_transmission_texture);
    MaterialProperties {
        render_method: resolved_method(material.opaque_render_method, default_method),
        alpha_mode: material.alpha_mode,
        mesh_pipeline_key_bits: if material.reads_view_transmission_texture {
            READS_VIEW_TRANSMISSION_TEXTURE
        } else {
            0
        },
        depth_bias: material.depth_bias,
        reads_view_transmission_texture: material.reads_view_transmission_texture,
        render_phase_type: phase,
        draw_function_id: match phase {
            RenderPhaseType::Opaque => draw.opaque,
            RenderPhaseType::AlphaMask => draw.alpha_mask,
            RenderPhaseType::Transmissive => draw.transmissive,
            RenderPhaseType::Transparent => draw.transparent,
        },
        prepass_draw_function_id: match phase {
            RenderPhaseType::Opaque => draw.opaque_prepass,
            RenderPhaseType::AlphaMask => draw.alpha_mask_prepass,
            _ => None,
        },
        deferred_draw_function_id: match phase {
            RenderPhaseType::Opaque => draw.opaque_deferred,
            RenderPhaseType::AlphaMask => draw.alpha_mask_deferred,
            _ => None,
        },
    }
}

/// Computes the properties of a material instance.
pub fn material_properties(
    material: &MaterialDescriptor,
    default_method: &DefaultOpaqueRendererMethod,
    draw: &DrawFunctionIds,
) -> (r: MaterialProperties)
    ensures
        r == properties_of(*material, default_method.0, *draw),
{
    let render_method = match material.opaque_render_method {
        OpaqueRendererMethod::Forward => OpaqueRendererMethod::Forward,
        OpaqueRendererMethod::Deferred => OpaqueRendererMethod::Deferred,
        OpaqueRendererMethod::Auto => default_method.0,
    };
    let mesh_pipeline_key_bits: u64 = if material.reads_view_transmission_texture {
        READS_VIEW_TRANSMISSION_TEXTURE
    } else {
        0
    };
    let phase = render_phase_type(material.alpha_mode, material.reads_view_transmission_texture);
    let draw_function_id = match phase {
        RenderPhaseType::Opaque => draw.opaque,
        RenderPhaseType::AlphaMask => draw.alpha_mask,
        RenderPhaseType::Transmissive => draw.transmissive,
        RenderPhaseType::Transparent => draw.transparent,
    };
    let prepass_draw_function_id = match phase {
        RenderPhaseType::Opaque => draw.opaque_prepass,
        RenderPhaseType::AlphaMask => draw.alpha_mask_prepass,
        _ => None,
    };
    let deferred_draw_function_id = match phase {
        RenderPhaseType::Opaque => draw.opaque_deferred,
        RenderPhaseType::AlphaMask => draw.alpha_mask_deferred,
        _ => None,
    };
    MaterialProperties {
        render_method,
        alpha_mode: material.alpha_mode,
        mesh_pipeline_key_bits,
        depth_bias: material.depth_bias,
        reads_view_transmission_texture: material.reads_view_transmission_texture,
        render_phase_type: phase,
        draw_function_id,
        prepass_draw_function_id,
        deferred_draw_function_id,
    }
}

/// Why a material's bind group could not be prepared.
#[derive(Clone, Copy, Debug, PartialEq, Eq, Structural)]
pub enum AsBindGroupError {
    /// The data it needs is not loaded yet.
    RetryNextUpdate,
    /// The material builds its own bind group.
    CreateBindGroupDirectly,
    /// Its data cannot be bound.
    InvalidData,
}

/// A bind group that a material built itself, with its extra data.
#[derive(Clone, Copy, Debug, PartialEq, Eq, Structural)]
pub struct PreparedBindGroup {
    pub bind_group: u64,
    pub data: u64,
}

#[derive(Clone, Copy, Debug, PartialEq, Eq, Structural)]
pub enum PrepareAssetError {
    /// Try again on the next update.
    RetryNextUpdate,
    /// The bind-group allocator has no binding left for a new material.
    AllocatorExhausted,
    AsBindGroupError(AsBindGroupError),
}

/// A material instance ready for rendering.
#[derive(Clone, Copy, Debug, PartialEq, Eq, Structural)]
pub struct PreparedMaterial {
    pub binding: MaterialBindingId,
    pub properties: MaterialProperties,
}

/// The binding of each material asset.
pub struct RenderMaterialBindings {
    pub map: HashMap<u64, MaterialBindingId>,
}

/// Every material asset with a binding holds a live one of its own.
pub open spec fn bindings_consistent(
    b: Map<u64, MaterialBindingId>,
    a: MaterialBindGroupAllocator,
) -> bool {
    &&& forall|k: u64| #[trigger] b.contains_key(k) ==> a.is_live(b[k])
    &&& forall|k1: u64, k2: u64|
        #[trigger] b.contains_key(k1) && #[trigger] b.contains_key(k2) && k1 != k2 ==> b[k1]
            != b[k2]
}

impl RenderMaterialBindings {
    pub fn new() -> (r: Self)
        ensures
            r.map@ == Map::<u64, MaterialBindingId>::empty(),
    {
        RenderMaterialBindings { map: HashMap::new() }
    }

    pub fn get(&self, material_id: u64) -> (r: Option<MaterialBindingId>)
        ensures
            r == (if self.map@.contains_key(material_id) {
                Some(self.map@[material_id])
            } else {
                None
            }),
    {
        match self.map.get(&material_id) {
            Some(b) => Some(*b),
            None => None,
        }
    }
}

/// Whether preparing a material needs the bind group that it builds
/// itself, given what its automatic preparation returned.
pub fn needs_direct_bind_group(unprepared: &Result<u64, AsBindGroupError>) -> (r: bool)
    ensures
        r == (*unprepared == Err::<u64, AsBindGroupError>(AsBindGroupError::CreateBindGroupDirectly)),
{
    matches!(unprepared, Err(AsBindGroupError::CreateBindGroupDirectly))
}

/// The outcome of preparing a material's bind group: the extra data and
/// the bind group it built itself, if any, or the error.
pub open spec fn bind_group_outcome(
    unprepared: Result<u64, AsBindGroupError>,
    direct: Option<Result<PreparedBindGroup, AsBindGroupError>>,
) -> Result<(u64, Option<u64>), PrepareAssetError> {
    match unprepared {
        Ok(extra) => Ok((extra, None)),
        Err(AsBindGroupError::RetryNextUpdate) => Err(PrepareAssetError::RetryNextUpdate),
        Err(AsBindGroupError::CreateBindGroupDirectly) => match direct.unwrap() {
            Ok(p) => Ok((p.data, Some(p.bind_group))),
            Err(AsBindGroupError::RetryNextUpdate) => Err(PrepareAssetError::RetryNextUpdate),
            Err(e) => Err(PrepareAssetError::AsBindGroupError(e)),
        },
        Err(e) => Err(PrepareAssetError::AsBindGroupError(e)),
    }
}

impl PreparedMaterial {
    /// Prepares a material asset: reuses its binding or allocates one,
    /// computes its properties, and attaches its bind-group data, which the
    /// material produced either automatically (`unprepared`) or, when that
    /// asked for it, by building its own bind group (`direct`).
    pub fn prepare_asset(
        material: &MaterialDescriptor,
        material_id: u64,
        default_method: &DefaultOpaqueRendererMethod,
        draw: &DrawFunctionIds,
        allocator: &mut MaterialBindGroupAllocator,
        bindings: &mut RenderMaterialBindings,
        unprepared: Result<u64, AsBindGroupError>,
        direct: Option<Result<PreparedBindGroup, AsBindGroupError>>,
    ) -> (r: Result<PreparedMaterial, PrepareAssetError>)
        requires
            old(allocator).wf(),
            bindings_consistent(old(bindings).map@, *old(allocator)),
            unprepared == Err::<u64, AsBindGroupError>(AsBindGroupError::CreateBindGroupDirectly)
                ==> direct.is_some(),
        ensures
            final(allocator).wf(),
            bindings_consistent(final(bindings).map@, *final(allocator)),
            (!old(bindings).map@.contains_key(material_id) && old(allocator).groups@.len()
                >= u32::MAX) ==> {
                &&& r == Err::<PreparedMaterial, PrepareAssetError>(
                    PrepareAssetError::AllocatorExhausted,
                )
                &&& *final(allocator) == *old(allocator)
                &&& final(bindings).map@ == old(bindings).map@
            },
            !(!old(bindings).map@.contains_key(material_id) && old(allocator).groups@.len()
                >= u32::MAX) ==> final(bindings).map@.contains_key(material_id),
            old(bindings).map@.contains_key(material_id) ==> final(bindings).map@
                == old(bindings).map@,
            (!old(bindings).map@.contains_key(material_id) && old(allocator).groups@.len()
                < u32::MAX) ==> {
                &&& !old(allocator).is_live(final(bindings).map@[material_id])
                &&& final(bindings).map@ == old(bindings).map@.insert(
                    material_id,
                    final(bindings).map@[material_id],
                )
            },
            !(!old(bindings).map@.contains_key(material_id) && old(allocator).groups@.len()
                >= u32::MAX) ==> ({
                let b = final(bindings).map@[material_id];
                &&& forall|o: MaterialBindingId|
                    o != b ==> final(allocator).slot_of(o) == old(allocator).slot_of(o)
                &&& match bind_group_outcome(unprepared, direct) {
                    Ok((extra, custom)) => {
                        &&& r == Ok::<PreparedMaterial, PrepareAssetError>(
                            PreparedMaterial {
                                binding: b,
                                properties: properties_of(*material, default_method.0, *draw),
                            },
                        )
                        &&& final(allocator).slot_of(b) == (SlotState::Ready {
                            extra_data: extra,
                            custom_bind_group: custom,
                        })
                    },
                    Err(e) => {
                        &&& r == Err::<PreparedMaterial, PrepareAssetError>(e)
                        &&& final(allocator).is_live(b)
                        &&& old(allocator).is_live(b) ==> final(allocator).slot_of(b)
                            == old(allocator).slot_of(b)
                        &&& !old(bindings).map@.contains_key(material_id)
                            ==> final(allocator).slot_of(b) == SlotState::Reserved
                    },
                }
            }),
    {
        if !bindings.map.contains_key(&material_id) && allocator.groups.len() >= 0xFFFF_FFFF {
            return Err(PrepareAssetError::AllocatorExhausted);
        }
        let binding = match bindings.map.get(&material_id) {
            Some(b) => *b,
            None => {
                let b = allocator.allocate();
                bindings.map.insert(material_id, b);
                proof {
                    let m = bindings.map@;
                    assert forall|k1: u64, k2: u64|
                        #[trigger] m.contains_key(k1) && #[trigger] m.contains_key(k2) && k1
                            != k2 implies m[k1] != m[k2] by {
                        if k1 != material_id && k2 != material_id {
                            assert(old(bindings).map@.contains_key(k1));
                            assert(old(bindings).map@.contains_key(k2));
                        } else if k1 == material_id {
                            assert(old(bindings).map@.contains_key(k2));
                        } else {
                            assert(old(bindings).map@.contains_key(k1));
                        }
                    }
                    assert forall|k: u64| #[trigger] m.contains_key(k) implies allocator.is_live(
                        m[k],
                    ) by {
                        if k != material_id {
                            assert(old(bindings).map@.contains_key(k));
                        }
                    }
                }
                b
            },
        };
        let properties = material_properties(material, default_method, draw);
        let ghost mid = *allocator;
        let ghost bmap = bindings.map@;
        assert(bmap.contains_key(material_id) && bmap[material_id] == binding);
        let r = match unprepared {
            Ok(extra) => {
                allocator.init(binding, extra);
                Ok(PreparedMaterial { binding, properties })
            },
            Err(AsBindGroupError::RetryNextUpdate) => Err(PrepareAssetError::RetryNextUpdate),
            Err(AsBindGroupError::CreateBindGroupDirectly) => {
                match direct {
                    Some(Ok(prepared)) => {
                        allocator.init_custom(binding, prepared.bind_group, prepared.data);
                        Ok(PreparedMaterial { binding, properties })
                    },
                    Some(Err(AsBindGroupError::RetryNextUpdate)) => Err(
                        PrepareAssetError::RetryNextUpdate,
                    ),
                    Some(Err(e)) => Err(PrepareAssetError::AsBindGroupError(e)),
                    None => Err(PrepareAssetError::RetryNextUpdate),
                }
            },
            Err(e) => Err(PrepareAssetError::AsBindGroupError(e)),
        };
        proof {
            assert forall|k: u64| #[trigger] bmap.contains_key(k) implies allocator.is_live(
                bmap[k],
            ) by {
                assert(mid.is_live(bmap[k]));
                if bmap[k] != binding {
                    assert(allocator.slot_of(bmap[k]) == mid.slot_of(bmap[k]));
                }
            }
        }
        r
    }

    /// Forgets a material asset and frees its binding.
    pub fn unload_asset(
        material_id: u64,
        allocator: &mut MaterialBindGroupAllocator,
        bindings: &mut RenderMaterialBindings,
    )
        requires
            old(allocator).wf(),
            bindings_consistent(old(bindings).map@, *old(allocator)),
        ensures
            final(allocator).wf(),
            bindings_consistent(final(bindings).map@, *final(allocator)),
            final(bindings).map@ == old(bindings).map@.remove(material_id),
            old(bindings).map@.contains_key(material_id) ==> {
                let b = old(bindings).map@[material_id];
                &&& final(allocator).slot_of(b) == SlotState::Free
                &&& forall|o: MaterialBindingId|
                    o != b ==> final(allocator).slot_of(o) == old(allocator).slot_of(o)
            },
            !old(bindings).map@.contains_key(material_id) ==> *final(allocator)
                == *old(allocator),
    {
        let removed = bindings.map.remove(&material_id);
        match removed {
            Some(b) => {
                allocator.free(b);
                proof {
                    let m = bindings.map@;
                    assert forall|k: u64| #[trigger] m.contains_key(k) implies allocator.is_live(
                        m[k],
                    ) by {
                        assert(old(bindings).map@.contains_key(k));
                        assert(old(bindings).map@[k] != b);
                    }
                    assert forall|k1: u64, k2: u64|
                        #[trigger] m.contains_key(k1) && #[trigger] m.contains_key(k2) && k1
                            != k2 implies m[k1] != m[k2] by {
                        assert(old(bindings).map@.contains_key(k1));
                        assert(old(bindings).map@.contains_key(k2));
                    }
                }
            },
            None => {
                assert(bindings.map@ == old(bindings).map@.remove(material_id));
            },
        }
    }
}

} // verus!
