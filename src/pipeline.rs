//! Pipeline variants: the descriptor that a material pipeline family
//! produces for a key, the cache of compiled or pending pipelines, and the
//! per-family map from keys to pipeline ids.
use vstd::prelude::*;
use crate::key::MaterialPipelineKey;

verus! {

/// The mesh pipeline that every material pipeline builds on: its bind
/// group layouts for the view and the mesh, and its default shaders.
#[derive(Clone, Copy, Debug, PartialEq, Eq, Structural)]
pub struct MeshPipeline {
    pub view_layout: u64,
    pub mesh_layout: u64,
    pub vertex_shader: u64,
    pub fragment_shader: u64,
}

/// The pipeline family of one material type.
#[derive(Clone, Copy, Debug, PartialEq, Eq, Structural)]
pub struct MaterialPipeline {
    pub mesh_pipeline: MeshPipeline,
    pub material_layout: u64,
    pub vertex_shader: Option<u64>,
    pub fragment_shader: Option<u64>,
    /// The material really uses bindless resources on this platform.
    pub bindless: bool,
    /// The vertex attributes, as a bit set, that the material's shaders
    /// read. A mesh whose layout lacks one is rejected.
    pub required_vertex_attributes: u64,
}

/// What a pipeline is built from.
#[derive(Clone, Debug, PartialEq, Eq)]
pub struct RenderPipelineDescriptor {
    pub key: MaterialPipelineKey,
    pub vertex_layout: u64,
    pub vertex_shader: u64,
    pub fragment_shader: u64,
    /// Bind group layouts, by group index.
    pub layout: Vec<u64>,
    /// The shaders are compiled with the bindless define.
    pub bindless: bool,
}

/// A material declines a key.
#[derive(Clone, Copy, Debug, PartialEq, Eq, Structural)]
pub enum SpecializedMeshPipelineError {
    /// The mesh's vertex layout lacks attributes that the material reads;
    /// the field holds the missing ones.
    MissingVertexAttribute(u64),
}

pub open spec fn missing_attributes(p: MaterialPipeline, vertex_layout: u64) -> u64 {
    p.required_vertex_attributes & !vertex_layout
}

/// Where a material's shader comes from: the mesh pipeline's own, or a
/// loaded shader asset.
#[derive(Clone, Copy, Debug, PartialEq, Eq, Structural)]
pub enum ShaderRef {
    Default,
    Handle(u64),
}

pub open spec fn shader_override(r: ShaderRef) -> Option<u64> {
    match r {
        ShaderRef::Default => None,
        ShaderRef::Handle(h) => Some(h),
    }
}

impl MaterialPipeline {
    /// The pipeline family of a material type, from the mesh pipeline, the
    /// material's bind group layout and its shaders.
    pub fn from_world(
        mesh_pipeline: MeshPipeline,
        material_layout: u64,
        vertex_shader: ShaderRef,
        fragment_shader: ShaderRef,
        bindless: bool,
        required_vertex_attributes: u64,
    ) -> (r: MaterialPipeline)
        ensures
            r == (MaterialPipeline {
                mesh_pipeline,
                material_layout,
                vertex_shader: shader_override(vertex_shader),
                fragment_shader: shader_override(fragment_shader),
                bindless,
                required_vertex_attributes,
            }),
    {
        MaterialPipeline {
            mesh_pipeline,
            material_layout,
            vertex_shader: match vertex_shader {
                ShaderRef::Default => None,
                ShaderRef::Handle(h) => Some(h),
            },
            fragment_shader: match fragment_shader {
                ShaderRef::Default => None,
                ShaderRef::Handle(h) => Some(h),
            },
            bindless,
            required_vertex_attributes,
        }
    }

    /// The descriptor for `key` on meshes with `vertex_layout`: the mesh
    /// pipeline's, with the material's shaders where it has its own and its
    /// bind group layout at index 2.
    pub open spec fn descriptor_of(self, key: MaterialPipelineKey, vertex_layout: u64) -> (
        MaterialPipelineKey,
        u64,
        u64,
        u64,
        Seq<u64>,
        bool,
    ) {
        (
            key,
            vertex_layout,
            match self.vertex_shader {
                Some(s) => s,
                None => self.mesh_pipeline.vertex_shader,
            },
            match self.fragment_shader {
                Some(s) => s,
                None => self.mesh_pipeline.fragment_shader,
            },
            seq![self.mesh_pipeline.view_layout, self.mesh_pipeline.mesh_layout, self.material_layout],
            self.bindless,
        )
    }

    pub fn specialize(&self, key: MaterialPipelineKey, vertex_layout: u64) -> (r: Result<
        RenderPipelineDescriptor,
        SpecializedMeshPipelineError,
    >)
        ensures
            missing_attributes(*self, vertex_layout) != 0 ==> r == Err::<
                RenderPipelineDescriptor,
                SpecializedMeshPipelineError,
            >(SpecializedMeshPipelineError::MissingVertexAttribute(
                missing_attributes(*self, vertex_layout),
            )),
            missing_attributes(*self, vertex_layout) == 0 ==> (r matches Ok(d) && descriptor_view(
                d,
            ) == self.descriptor_of(key, vertex_layout)),
    {
        let missing = self.required_vertex_attributes & !vertex_layout;
        if missing != 0 {
            return Err(SpecializedMeshPipelineError::MissingVertexAttribute(missing));
        }
        let mut layout: Vec<u64> = Vec::new();
        layout.push(self.mesh_pipeline.view_layout);
        layout.push(self.mesh_pipeline.mesh_layout);
        layout.insert(2, self.material_layout);
        let vertex_shader = match self.vertex_shader {
            Some(s) => s,
            None => self.mesh_pipeline.vertex_shader,
        };
        let fragment_shader = match self.fragment_shader {
            Some(s) => s,
            None => self.mesh_pipeline.fragment_shader,
        };
        let d = RenderPipelineDescriptor {
            key,
            vertex_layout,
            vertex_shader,
            fragment_shader,
            layout,
            bindless: self.bindless,
        };
        assert(d.layout@ =~= seq![
            self.mesh_pipeline.view_layout,
            self.mesh_pipeline.mesh_layout,
            self.material_layout,
        ]);
        Ok(d)
    }
}

pub open spec fn descriptor_view(d: RenderPipelineDescriptor) -> (
    MaterialPipelineKey,
    u64,
    u64,
    u64,
    Seq<u64>,
    bool,
) {
    (d.key, d.vertex_layout, d.vertex_shader, d.fragment_shader, d.layout@, d.bindless)
}

/// The compilation state of a pipeline.
#[derive(Clone, Copy, Debug, PartialEq, Eq, Structural)]
pub enum PipelineState {
    /// Queued or compiling.
    Pending,
    /// Compiled; the field is the GPU pipeline.
    Ready(u64),
    /// Compilation failed.
    Failed,
}

/// All pipelines that were requested, by id. Compilation happens outside
/// the library; the results are reported back.
pub struct PipelineCache {
    pub descriptors: Vec<RenderPipelineDescriptor>,
    pub states: Vec<PipelineState>,
}

impl PipelineCache {
    pub open spec fn wf(&self) -> bool {
        self.descriptors@.len() == self.states@.len()
    }

    pub open spec fn len(&self) -> nat {
        self.states@.len()
    }

    pub fn new() -> (r: PipelineCache)
        ensures
            r.wf(),
            r.len() == 0,
    {
        PipelineCache { descriptors: Vec::new(), states: Vec::new() }
    }

    /// Queues a pipeline for compilation and hands out its id at once.
    pub fn queue_render_pipeline(&mut self, descriptor: RenderPipelineDescriptor) -> (id: u32)
        requires
            old(self).wf(),
            old(self).len() < u32::MAX,
        ensures
            final(self).wf(),
            id == old(self).len(),
            final(self).len() == old(self).len() + 1,
            final(self).states@ == old(self).states@.push(PipelineState::Pending),
            final(self).descriptors@ == old(self).descriptors@.push(descriptor),
    {
        let id = self.states.len() as u32;
        self.descriptors.push(descriptor);
        self.states.push(PipelineState::Pending);
        id
    }

    /// Records the outcome of a compilation.
    pub fn set_state(&mut self, id: u32, state: PipelineState)
        requires
            old(self).wf(),
        ensures
            final(self).wf(),
            final(self).descriptors@ == old(self).descriptors@,
            final(self).states@ == (if id < old(self).len() {
                old(self).states@.update(id as int, state)
            } else {
                old(self).states@
            }),
    {
        if (id as usize) < self.states.len() {
            self.states.set(id as usize, state);
        }
    }

    /// The compiled pipeline, once it is ready.
    pub fn get_render_pipeline(&self, id: u32) -> (r: Option<u64>)
        ensures
            r == (if id < self.len() {
                match self.states@[id as int] {
                    PipelineState::Ready(p) => Some(p),
                    _ => None,
                }
            } else {
                None
            }),
    {
        if (id as usize) < self.states.len() {
            match self.states[id as usize] {
                PipelineState::Ready(p) => Some(p),
                _ => None,
            }
        } else {
            None
        }
    }

    /// The pipelines still waiting for compilation, in id order.
    pub fn pending(&self) -> (r: Vec<u32>)
        requires
            self.len() <= u32::MAX,
        ensures
            forall|id: u32|
                r@.contains(id) <==> (id < self.len() && self.states@[id as int]
                    == PipelineState::Pending),
    {
        let mut r: Vec<u32> = Vec::new();
        let mut i: usize = 0;
        while i < self.states.len()
            invariant
                i <= self.states@.len(),
                self.states@.len() <= u32::MAX,
                forall|id: u32|
                    r@.contains(id) <==> (id < i && self.states@[id as int]
                        == PipelineState::Pending),
            decreases self.states@.len() - i,
        {
            let ghost r0 = r@;
            if matches!(self.states[i], PipelineState::Pending) {
                r.push(i as u32);
            }
            proof {
                assert forall|id: u32| #[trigger] r@.contains(id) == (r0.contains(id) || (r@.len()
                    > r0.len() && id == i as u32)) by {
                    if r0.contains(id) {
                        let k = choose|k: int| 0 <= k < r0.len() && r0[k] == id;
                        assert(r@[k] == id);
                    }
                    if r@.contains(id) {
                        let k = choose|k: int| 0 <= k < r@.len() && r@[k] == id;
                        if k < r0.len() {
                            assert(r0[k] == id);
                        }
                    }
                    if r@.len() > r0.len() && id == i as u32 {
                        assert(r@[r0.len() as int] == id);
                    }
                }
            }
            i = i + 1;
        }
        r
    }
}

/// One specialized variant: the key, the vertex layout it was built for,
/// and the pipeline's id.
#[derive(Clone, Copy, Debug, PartialEq, Eq, Structural)]
pub struct VariantEntry {
    pub key: MaterialPipelineKey,
    pub vertex_layout: u64,
    pub id: u32,
}

/// The pipeline id recorded for a key and a layout, the latest entry
/// counting.
pub open spec fn lookup(s: Seq<VariantEntry>, key: MaterialPipelineKey, vertex_layout: u64) -> Option<
    u32,
>
    decreases s.len(),
{
    if s.len() == 0 {
        None
    } else if s.last().key == key && s.last().vertex_layout == vertex_layout {
        Some(s.last().id)
    } else {
        lookup(s.drop_last(), key, vertex_layout)
    }
}

proof fn lemma_lookup_none(s: Seq<VariantEntry>, key: MaterialPipelineKey, vertex_layout: u64)
    requires
        forall|i: int| 0 <= i < s.len() ==> !(s[i].key == key && s[i].vertex_layout == vertex_layout),
    ensures
        lookup(s, key, vertex_layout).is_none(),
    decreases s.len(),
{
    if s.len() > 0 {
        lemma_lookup_none(s.drop_last(), key, vertex_layout);
    }
}

proof fn lemma_lookup_at(s: Seq<VariantEntry>, i: int)
    requires
        0 <= i < s.len(),
        unique_keys(s),
    ensures
        lookup(s, s[i].key, s[i].vertex_layout) == Some(s[i].id),
    decreases s.len(),
{
    if i < s.len() - 1 {
        lemma_lookup_at(s.drop_last(), i);
    }
}

proof fn lemma_lookup_some(s: Seq<VariantEntry>, key: MaterialPipelineKey, vertex_layout: u64)
    requires
        lookup(s, key, vertex_layout).is_some(),
    ensures
        exists|i: int| 0 <= i < s.len() && s[i].vertex_layout == vertex_layout,
    decreases s.len(),
{
    if s.last().key == key && s.last().vertex_layout == vertex_layout {
        assert(s[s.len() - 1].vertex_layout == vertex_layout);
    } else {
        lemma_lookup_some(s.drop_last(), key, vertex_layout);
        let i = choose|i: int| 0 <= i < s.len() - 1 && s.drop_last()[i].vertex_layout == vertex_layout;
        assert(s[i].vertex_layout == vertex_layout);
    }
}

pub open spec fn unique_keys(s: Seq<VariantEntry>) -> bool {
    forall|a: int, b: int|
        0 <= a < b < s.len() ==> !(s[a].key == s[b].key && s[a].vertex_layout == s[b].vertex_layout)
}

/// The variants of one pipeline family, each key specialized once.
pub struct SpecializedMaterialPipelines {
    pub entries: Vec<VariantEntry>,
}

impl SpecializedMaterialPipelines {
    /// Keys are unique and every id names a pipeline of `cache`.
    pub open spec fn wf(&self, cache: PipelineCache) -> bool {
        &&& unique_keys(self.entries@)
        &&& forall|i: int| 0 <= i < self.entries@.len() ==> self.entries@[i].id < cache.len()
    }

    /// Every variant was built for a layout that the family accepts.
    pub open spec fn built_by(&self, p: MaterialPipeline) -> bool {
        forall|i: int|
            0 <= i < self.entries@.len() ==> missing_attributes(p, #[trigger] self.entries@[i].vertex_layout)
                == 0
    }

    pub proof fn lemma_built_by_accepts(&self, p: MaterialPipeline, key: MaterialPipelineKey, vertex_layout: u64)
        requires
            self.built_by(p),
            self.id_of(key, vertex_layout).is_some(),
        ensures
            missing_attributes(p, vertex_layout) == 0,
    {
        lemma_lookup_some(self.entries@, key, vertex_layout);
    }

    pub open spec fn id_of(&self, key: MaterialPipelineKey, vertex_layout: u64) -> Option<u32> {
        lookup(self.entries@, key, vertex_layout)
    }

    pub fn new() -> (r: Self)
        ensures
            forall|c: PipelineCache| r.wf(c),
            forall|k: MaterialPipelineKey, l: u64| r.id_of(k, l).is_none(),
    {
        SpecializedMaterialPipelines { entries: Vec::new() }
    }

    /// The pipeline for `key` on meshes with `vertex_layout`: the one made
    /// before for them, else a new one queued in `cache`, unless the
    /// material declines the layout.
    pub fn specialize(
        &mut self,
        cache: &mut PipelineCache,
        pipeline: &MaterialPipeline,
        key: MaterialPipelineKey,
        vertex_layout: u64,
    ) -> (r: Result<u32, SpecializedMeshPipelineError>)
        requires
            old(self).wf(*old(cache)),
            old(cache).wf(),
            old(cache).len() < u32::MAX,
        ensures
            final(self).wf(*final(cache)),
            final(cache).wf(),
            old(self).built_by(*pipeline) ==> final(self).built_by(*pipeline),
            match old(self).id_of(key, vertex_layout) {
                Some(id) => r == Ok::<u32, SpecializedMeshPipelineError>(id) && *final(self)
                    == *old(self) && final(cache).states@ == old(cache).states@
                    && final(cache).descriptors@ == old(cache).descriptors@,
                None => if missing_attributes(*pipeline, vertex_layout) != 0 {
                    &&& r == Err::<u32, SpecializedMeshPipelineError>(
                        SpecializedMeshPipelineError::MissingVertexAttribute(
                            missing_attributes(*pipeline, vertex_layout),
                        ),
                    )
                    &&& *final(self) == *old(self)
                    &&& final(cache).states@ == old(cache).states@
                    &&& final(cache).descriptors@ == old(cache).descriptors@
                } else {
                    &&& r == Ok::<u32, SpecializedMeshPipelineError>(old(cache).len() as u32)
                    &&& final(self).entries@ == old(self).entries@.push(
                        VariantEntry { key, vertex_layout, id: old(cache).len() as u32 },
                    )
                    &&& final(cache).states@ == old(cache).states@.push(PipelineState::Pending)
                    &&& final(cache).descriptors@.len() == old(cache).descriptors@.len() + 1
                    &&& final(cache).descriptors@.drop_last() == old(cache).descriptors@
                    &&& descriptor_view(final(cache).descriptors@.last())
                        == pipeline.descriptor_of(key, vertex_layout)
                },
            },
            forall|k: MaterialPipelineKey, l: u64|
                old(self).id_of(k, l).is_some() ==> final(self).id_of(k, l) == old(self).id_of(
                    k,
                    l,
                ),
    {
        let mut i: usize = 0;
        while i < self.entries.len() && !(self.entries[i].key == key
            && self.entries[i].vertex_layout == vertex_layout)
            invariant
                i <= self.entries@.len(),
                forall|j: int|
                    0 <= j < i ==> !(self.entries@[j].key == key && self.entries@[j].vertex_layout
                        == vertex_layout),
            decreases self.entries@.len() - i,
        {
            i = i + 1;
        }
        if i < self.entries.len() {
            proof {
                lemma_lookup_at(self.entries@, i as int);
            }
            return Ok(self.entries[i].id);
        }
        proof {
            lemma_lookup_none(self.entries@, key, vertex_layout);
        }
        match pipeline.specialize(key, vertex_layout) {
            Err(e) => Err(e),
            Ok(descriptor) => {
                let ghost d0 = cache.descriptors@;
                let id = cache.queue_render_pipeline(descriptor);
                assert(cache.descriptors@.drop_last() =~= d0);
                let ghost s0 = self.entries@;
                self.entries.push(VariantEntry { key, vertex_layout, id });
                proof {
                    assert(self.entries@.drop_last() =~= s0);
                    assert forall|k: MaterialPipelineKey, l: u64|
                        lookup(s0, k, l).is_some() implies lookup(self.entries@, k, l) == lookup(
                            s0,
                            k,
                            l,
                        ) by {
                        if k == key && l == vertex_layout {
                        }
                    }
                }
                Ok(id)
            },
        }
    }
}

} // verus!
