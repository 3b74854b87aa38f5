//! The key model: mesh pipeline key bits, the bits contributed by alpha
//! mode, tonemapping and screen-space transmission, and the full material
//! pipeline key.
use vstd::prelude::*;

verus! {

pub const NONE: u64 = 0x0;
pub const MOTION_VECTOR_PREPASS: u64 = 0x80;
pub const MAY_DISCARD: u64 = 0x100;
pub const READS_VIEW_TRANSMISSION_TEXTURE: u64 = 0x2000;
pub const LIGHTMAPPED: u64 = 0x4000;
pub const LIGHTMAP_BICUBIC_SAMPLING: u64 = 0x8000;
pub const VISIBILITY_RANGE_DITHER: u64 = 0x2_0000;
pub const HAS_PREVIOUS_SKIN: u64 = 0x8_0000;
pub const HAS_PREVIOUS_MORPH: u64 = 0x10_0000;

/// Two bits at bit 46: screen-space specular transmission quality.
pub const SCREEN_SPACE_SPECULAR_TRANSMISSION_LOW: u64 = 0x0;
pub const SCREEN_SPACE_SPECULAR_TRANSMISSION_MEDIUM: u64 = 0x4000_0000_0000;
pub const SCREEN_SPACE_SPECULAR_TRANSMISSION_HIGH: u64 = 0x8000_0000_0000;
pub const SCREEN_SPACE_SPECULAR_TRANSMISSION_ULTRA: u64 = 0xC000_0000_0000;

/// Three bits at bit 48: tonemapping method.
pub const TONEMAP_METHOD_NONE: u64 = 0x0;
pub const TONEMAP_METHOD_REINHARD: u64 = 0x1_0000_0000_0000;
pub const TONEMAP_METHOD_REINHARD_LUMINANCE: u64 = 0x2_0000_0000_0000;
pub const TONEMAP_METHOD_ACES_FITTED: u64 = 0x3_0000_0000_0000;
pub const TONEMAP_METHOD_AGX: u64 = 0x4_0000_0000_0000;
pub const TONEMAP_METHOD_SOMEWHAT_BORING_DISPLAY_TRANSFORM: u64 = 0x5_0000_0000_0000;
pub const TONEMAP_METHOD_TONY_MC_MAPFACE: u64 = 0x6_0000_0000_0000;
pub const TONEMAP_METHOD_BLENDER_FILMIC: u64 = 0x7_0000_0000_0000;

/// Three bits at bit 58: blend state.
pub const BLEND_OPAQUE: u64 = 0x0;
pub const BLEND_PREMULTIPLIED_ALPHA: u64 = 0x0400_0000_0000_0000;
pub const BLEND_MULTIPLY: u64 = 0x0800_0000_0000_0000;
pub const BLEND_ALPHA: u64 = 0x0C00_0000_0000_0000;
pub const BLEND_ALPHA_TO_COVERAGE: u64 = 0x1000_0000_0000_0000;

/// Three bits at bit 61: log2 of the sample count.
pub const MSAA_RESERVED_BITS: u64 = 0xE000_0000_0000_0000;

/// How a material's alpha channel is used. The threshold of `Mask` is the
/// bit pattern of an IEEE-754 single-precision number.
#[derive(Clone, Copy, Debug, PartialEq, Eq, Structural)]
pub enum AlphaMode {
    Opaque,
    Mask(u32),
    Blend,
    Premultiplied,
    AlphaToCoverage,
    Add,
    Multiply,
}

/// Multisampling of a view.
#[derive(Clone, Copy, Debug, PartialEq, Eq, Structural)]
pub enum Msaa {
    Off,
    Sample2,
    Sample4,
    Sample8,
}

#[derive(Clone, Copy, Debug, PartialEq, Eq, Structural)]
pub enum Tonemapping {
    Disabled,
    Reinhard,
    ReinhardLuminance,
    AcesFitted,
    AgX,
    SomewhatBoringDisplayTransform,
    TonyMcMapface,
    BlenderFilmic,
}

#[derive(Clone, Copy, Debug, PartialEq, Eq, Structural)]
pub enum ScreenSpaceTransmissionQuality {
    Low,
    Medium,
    High,
    Ultra,
}

pub open spec fn alpha_mode_bits(alpha_mode: AlphaMode, msaa: Msaa) -> u64 {
    match alpha_mode {
        AlphaMode::Premultiplied | AlphaMode::Add => BLEND_PREMULTIPLIED_ALPHA,
        AlphaMode::Blend => BLEND_ALPHA,
        AlphaMode::Multiply => BLEND_MULTIPLY,
        AlphaMode::Mask(_) => MAY_DISCARD,
        AlphaMode::AlphaToCoverage => if msaa == Msaa::Off {
            MAY_DISCARD
        } else {
            BLEND_ALPHA_TO_COVERAGE
        },
        AlphaMode::Opaque => NONE,
    }
}

pub open spec fn tonemapping_bits(t: Tonemapping) -> u64 {
    match t {
        Tonemapping::Disabled => TONEMAP_METHOD_NONE,
        Tonemapping::Reinhard => TONEMAP_METHOD_REINHARD,
        Tonemapping::ReinhardLuminance => TONEMAP_METHOD_REINHARD_LUMINANCE,
        Tonemapping::AcesFitted => TONEMAP_METHOD_ACES_FITTED,
        Tonemapping::AgX => TONEMAP_METHOD_AGX,
        Tonemapping::SomewhatBoringDisplayTransform => TONEMAP_METHOD_SOMEWHAT_BORING_DISPLAY_TRANSFORM,
        Tonemapping::TonyMcMapface => TONEMAP_METHOD_TONY_MC_MAPFACE,
        Tonemapping::BlenderFilmic => TONEMAP_METHOD_BLENDER_FILMIC,
    }
}

pub open spec fn transmission_quality_bits(q: ScreenSpaceTransmissionQuality) -> u64 {
    match q {
        ScreenSpaceTransmissionQuality::Low => SCREEN_SPACE_SPECULAR_TRANSMISSION_LOW,
        ScreenSpaceTransmissionQuality::Medium => SCREEN_SPACE_SPECULAR_TRANSMISSION_MEDIUM,
        ScreenSpaceTransmissionQuality::High => SCREEN_SPACE_SPECULAR_TRANSMISSION_HIGH,
        ScreenSpaceTransmissionQuality::Ultra => SCREEN_SPACE_SPECULAR_TRANSMISSION_ULTRA,
    }
}

/// The multisampling that a view key records: no sample bits means off.
pub open spec fn msaa_of_key(view_key: u64) -> Msaa {
    let f = view_key & MSAA_RESERVED_BITS;
    if f == 0 {
        Msaa::Off
    } else if f == 0x2000_0000_0000_0000 {
        Msaa::Sample2
    } else if f == 0x4000_0000_0000_0000 {
        Msaa::Sample4
    } else {
        Msaa::Sample8
    }
}

pub open spec fn msaa_bits(msaa: Msaa) -> u64 {
    match msaa {
        Msaa::Off => 0,
        Msaa::Sample2 => 0x2000_0000_0000_0000,
        Msaa::Sample4 => 0x4000_0000_0000_0000,
        Msaa::Sample8 => 0x6000_0000_0000_0000,
    }
}

pub open spec fn samples_of(msaa: Msaa) -> u32 {
    match msaa {
        Msaa::Off => 1,
        Msaa::Sample2 => 2,
        Msaa::Sample4 => 4,
        Msaa::Sample8 => 8,
    }
}

impl Msaa {
    /// The setting with the given sample count.
    pub fn from_samples(samples: u32) -> (r: Msaa)
        requires
            samples == 1 || samples == 2 || samples == 4 || samples == 8,
        ensures
            samples_of(r) == samples,
    {
        if samples == 1 {
            Msaa::Off
        } else if samples == 2 {
            Msaa::Sample2
        } else if samples == 4 {
            Msaa::Sample4
        } else {
            Msaa::Sample8
        }
    }

    pub fn samples(&self) -> (r: u32)
        ensures
            r == samples_of(*self),
    {
        match self {
            Msaa::Off => 1,
            Msaa::Sample2 => 2,
            Msaa::Sample4 => 4,
            Msaa::Sample8 => 8,
        }
    }

    /// The sample-count bits that a view key holds for this setting.
    pub fn key_bits(&self) -> (r: u64)
        ensures
            r == msaa_bits(*self),
            msaa_of_key(r) == *self,
    {
        let r: u64 = match self {
            Msaa::Off => 0,
            Msaa::Sample2 => 0x2000_0000_0000_0000,
            Msaa::Sample4 => 0x4000_0000_0000_0000,
            Msaa::Sample8 => 0x6000_0000_0000_0000,
        };
        assert(msaa_of_key(r) == *self) by {
            assert(0u64 & 0xE000_0000_0000_0000u64 == 0u64) by (bit_vector);
            assert(0x2000_0000_0000_0000u64 & 0xE000_0000_0000_0000u64 == 0x2000_0000_0000_0000u64)
                by (bit_vector);
            assert(0x4000_0000_0000_0000u64 & 0xE000_0000_0000_0000u64 == 0x4000_0000_0000_0000u64)
                by (bit_vector);
            assert(0x6000_0000_0000_0000u64 & 0xE000_0000_0000_0000u64 == 0x6000_0000_0000_0000u64)
                by (bit_vector);
        }
        r
    }

    /// The multisampling recorded in a view key.
    pub fn from_view_key(view_key: u64) -> (r: Msaa)
        ensures
            r == msaa_of_key(view_key),
    {
        let f = view_key & MSAA_RESERVED_BITS;
        if f == 0 {
            Msaa::Off
        } else if f == 0x2000_0000_0000_0000 {
            Msaa::Sample2
        } else if f == 0x4000_0000_0000_0000 {
            Msaa::Sample4
        } else {
            Msaa::Sample8
        }
    }
}

/// The blend bits of a material with the given alpha mode under the given
/// multisampling. `Premultiplied` and `Add` share one pipeline; alpha to
/// coverage falls back to discarding without multisampling.
pub fn alpha_mode_pipeline_key(alpha_mode: AlphaMode, msaa: &Msaa) -> (r: u64)
    ensures
        r == alpha_mode_bits(alpha_mode, *msaa),
{
    match alpha_mode {
        AlphaMode::Premultiplied | AlphaMode::Add => BLEND_PREMULTIPLIED_ALPHA,
        AlphaMode::Blend => BLEND_ALPHA,
        AlphaMode::Multiply => BLEND_MULTIPLY,
        AlphaMode::Mask(_) => MAY_DISCARD,
        AlphaMode::AlphaToCoverage => match msaa {
            Msaa::Off => MAY_DISCARD,
            _ => BLEND_ALPHA_TO_COVERAGE,
        },
        AlphaMode::Opaque => NONE,
    }
}

pub fn tonemapping_pipeline_key(tonemapping: Tonemapping) -> (r: u64)
    ensures
        r == tonemapping_bits(tonemapping),
{
    match tonemapping {
        Tonemapping::Disabled => TONEMAP_METHOD_NONE,
        Tonemapping::Reinhard => TONEMAP_METHOD_REINHARD,
        Tonemapping::ReinhardLuminance => TONEMAP_METHOD_REINHARD_LUMINANCE,
        Tonemapping::AcesFitted => TONEMAP_METHOD_ACES_FITTED,
        Tonemapping::AgX => TONEMAP_METHOD_AGX,
        Tonemapping::SomewhatBoringDisplayTransform => TONEMAP_METHOD_SOMEWHAT_BORING_DISPLAY_TRANSFORM,
        Tonemapping::TonyMcMapface => TONEMAP_METHOD_TONY_MC_MAPFACE,
        Tonemapping::BlenderFilmic => TONEMAP_METHOD_BLENDER_FILMIC,
    }
}

pub fn screen_space_specular_transmission_pipeline_key(
    screen_space_transmissive_blur_quality: ScreenSpaceTransmissionQuality,
) -> (r: u64)
    ensures
        r == transmission_quality_bits(screen_space_transmissive_blur_quality),
{
    match screen_space_transmissive_blur_quality {
        ScreenSpaceTransmissionQuality::Low => SCREEN_SPACE_SPECULAR_TRANSMISSION_LOW,
        ScreenSpaceTransmissionQuality::Medium => SCREEN_SPACE_SPECULAR_TRANSMISSION_MEDIUM,
        ScreenSpaceTransmissionQuality::High => SCREEN_SPACE_SPECULAR_TRANSMISSION_HIGH,
        ScreenSpaceTransmissionQuality::Ultra => SCREEN_SPACE_SPECULAR_TRANSMISSION_ULTRA,
    }
}

/// `flag` when `on`, else no bits.
pub open spec fn bits_if(on: bool, flag: u64) -> u64 {
    if on {
        flag
    } else {
        0
    }
}

/// What a mesh instance contributes to its key beyond its vertex layout.
#[derive(Clone, Copy, Debug, PartialEq, Eq, Structural)]
pub struct InstanceKeyInputs {
    /// `Some(bicubic)` when the instance has a lightmap.
    pub lightmap: Option<bool>,
    /// The instance has visibility ranges that cross-fade.
    pub crossfading_visibility_ranges: bool,
    /// The instance had a skin on the previous frame.
    pub has_previous_skin: bool,
    /// The instance had morph targets on the previous frame.
    pub has_previous_morph: bool,
}

/// The mesh key of a drawable seen from a view: the view's bits, the mesh
/// layout's bits and the material's bits, the blend bits of the material's
/// alpha mode under the view's multisampling, the lightmap and dither bits
/// of the instance, and its skin and morph history when the view runs a
/// motion-vector prepass.
pub open spec fn mesh_key_of(
    view_key: u64,
    mesh_bits: u64,
    material_bits: u64,
    alpha_mode: AlphaMode,
    inst: InstanceKeyInputs,
) -> u64 {
    let motion = view_key & MOTION_VECTOR_PREPASS != 0;
    view_key | mesh_bits | material_bits | alpha_mode_bits(alpha_mode, msaa_of_key(view_key))
        | bits_if(inst.lightmap.is_some(), LIGHTMAPPED)
        | bits_if(inst.lightmap == Some(true), LIGHTMAP_BICUBIC_SAMPLING)
        | bits_if(inst.crossfading_visibility_ranges, VISIBILITY_RANGE_DITHER)
        | bits_if(motion && inst.has_previous_skin, HAS_PREVIOUS_SKIN)
        | bits_if(motion && inst.has_previous_morph, HAS_PREVIOUS_MORPH)
}

pub fn mesh_key(
    view_key: u64,
    mesh_bits: u64,
    material_bits: u64,
    alpha_mode: AlphaMode,
    inst: &InstanceKeyInputs,
) -> (r: u64)
    ensures
        r == mesh_key_of(view_key, mesh_bits, material_bits, alpha_mode, *inst),
{
    let msaa = Msaa::from_view_key(view_key);
    let motion = view_key & MOTION_VECTOR_PREPASS != 0;
    let mut k = view_key | mesh_bits | material_bits | alpha_mode_pipeline_key(alpha_mode, &msaa);
    k = k | (if inst.lightmap.is_some() { LIGHTMAPPED } else { 0 });
    k = k | (if inst.lightmap == Some(true) { LIGHTMAP_BICUBIC_SAMPLING } else { 0 });
    k = k | (if inst.crossfading_visibility_ranges { VISIBILITY_RANGE_DITHER } else { 0 });
    k = k | (if motion && inst.has_previous_skin { HAS_PREVIOUS_SKIN } else { 0 });
    k = k | (if motion && inst.has_previous_morph { HAS_PREVIOUS_MORPH } else { 0 });
    k
}

/// The key of one pipeline variant: the mesh key and the material's
/// bind-group extra data, compared by value.
#[derive(Clone, Copy, Debug, PartialEq, Eq, Hash, Structural)]
pub struct MaterialPipelineKey {
    pub mesh_key: u64,
    pub bind_group_data: u64,
}

} // verus!
