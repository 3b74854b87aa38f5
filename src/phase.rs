//! Render phases. Binned phases (opaque, alpha mask) keep their entities
//! across frames and sweep those that were not confirmed in the current
//! frame; sorted phases (transmissive, transparent) are rebuilt every frame
//! and kept in back-to-front order.
use vstd::prelude::*;
use std::collections::HashMap;
use crate::tick::Tick;

verus! {

broadcast use vstd::std_specs::hash::group_hash_axioms;

/// What must match for drawables to be drawn in one multi-draw batch.
#[derive(Clone, Copy, Debug, PartialEq, Eq, Hash, PartialOrd, Ord, Structural)]
pub struct BatchSetKey {
    pub pipeline: u32,
    pub draw_function: u32,
    pub material_bind_group_index: Option<u32>,
    pub vertex_slab: u32,
    pub index_slab: Option<u32>,
    /// Always `None` in phases whose drawables have no lightmaps.
    pub lightmap_slab: Option<u32>,
}

pub open spec fn opt_rank(o: Option<u32>) -> int {
    match o {
        None => -1,
        Some(x) => x as int,
    }
}

/// The order of batch sets: lexicographic over the fields in declaration
/// order, `None` before any value.
pub open spec fn key_lt(a: BatchSetKey, b: BatchSetKey) -> bool {
    if a.pipeline != b.pipeline {
        a.pipeline < b.pipeline
    } else if a.draw_function != b.draw_function {
        a.draw_function < b.draw_function
    } else if a.material_bind_group_index != b.material_bind_group_index {
        opt_rank(a.material_bind_group_index) < opt_rank(b.material_bind_group_index)
    } else if a.vertex_slab != b.vertex_slab {
        a.vertex_slab < b.vertex_slab
    } else if a.index_slab != b.index_slab {
        opt_rank(a.index_slab) < opt_rank(b.index_slab)
    } else {
        opt_rank(a.lightmap_slab) < opt_rank(b.lightmap_slab)
    }
}

pub proof fn lemma_key_lt_order(a: BatchSetKey, b: BatchSetKey, c: BatchSetKey)
    ensures
        key_lt(a, b) && key_lt(b, c) ==> key_lt(a, c),
        !key_lt(a, a),
        a != b ==> key_lt(a, b) || key_lt(b, a),
{
    if a.material_bind_group_index != b.material_bind_group_index {
        assert(opt_rank(a.material_bind_group_index) != opt_rank(b.material_bind_group_index));
    }
    if a.index_slab != b.index_slab {
        assert(opt_rank(a.index_slab) != opt_rank(b.index_slab));
    }
    if a.lightmap_slab != b.lightmap_slab {
        assert(opt_rank(a.lightmap_slab) != opt_rank(b.lightmap_slab));
    }
}

fn opt_less(a: Option<u32>, b: Option<u32>) -> (r: bool)
    ensures
        r == (opt_rank(a) < opt_rank(b)),
{
    match (a, b) {
        (None, Some(_)) => true,
        (Some(x), Some(y)) => x < y,
        _ => false,
    }
}

/// Compares batch-set keys in the order of `key_lt`.
pub fn batch_set_key_less(a: &BatchSetKey, b: &BatchSetKey) -> (r: bool)
    ensures
        r == key_lt(*a, *b),
{
    if a.pipeline != b.pipeline {
        a.pipeline < b.pipeline
    } else if a.draw_function != b.draw_function {
        a.draw_function < b.draw_function
    } else if a.material_bind_group_index != b.material_bind_group_index {
        opt_less(a.material_bind_group_index, b.material_bind_group_index)
    } else if a.vertex_slab != b.vertex_slab {
        a.vertex_slab < b.vertex_slab
    } else if a.index_slab != b.index_slab {
        opt_less(a.index_slab, b.index_slab)
    } else {
        opt_less(a.lightmap_slab, b.lightmap_slab)
    }
}

pub open spec fn strictly_sorted(s: Seq<BatchSetKey>) -> bool {
    forall|a: int, b: int| 0 <= a < b < s.len() ==> key_lt(s[a], s[b])
}

/// Adds a key to a strictly sorted list of keys, unless it is there.
fn insert_sorted(r: &mut Vec<BatchSetKey>, k: BatchSetKey)
    requires
        strictly_sorted(old(r)@),
    ensures
        strictly_sorted(final(r)@),
        forall|x: BatchSetKey| #[trigger] final(r)@.contains(x) == (old(r)@.contains(x) || x == k),
{
    let mut p: usize = 0;
    while p < r.len() && batch_set_key_less(&r[p], &k)
        invariant
            p <= r@.len(),
            forall|a: int| 0 <= a < p ==> key_lt(r@[a], k),
        decreases r@.len() - p,
    {
        p = p + 1;
    }
    if p < r.len() && r[p] == k {
        return ;
    }
    let ghost s0 = r@;
    proof {
        assert forall|b: int| p <= b < s0.len() implies key_lt(k, s0[b]) by {
            lemma_key_lt_order(k, s0[p as int], s0[b]);
            lemma_key_lt_order(s0[p as int], k, s0[b]);
            if b > p {
                lemma_key_lt_order(k, s0[p as int], s0[b]);
            }
        }
    }
    r.insert(p, k);
    proof {
        let t = r@;
        assert(t == s0.insert(p as int, k));
        assert forall|a: int, b: int| 0 <= a < b < t.len() implies key_lt(t[a], t[b]) by {
            if b < p {
            } else if b == p {
            } else if a < p {
                assert(t[b] == s0[b - 1]);
                lemma_key_lt_order(t[a], k, t[b]);
            } else if a == p {
                assert(t[b] == s0[b - 1]);
            } else {
                assert(t[a] == s0[a - 1] && t[b] == s0[b - 1]);
            }
        }
        assert forall|x: BatchSetKey| #[trigger] t.contains(x) == (s0.contains(x) || x == k) by {
            if s0.contains(x) {
                let i = choose|i: int| 0 <= i < s0.len() && s0[i] == x;
                if i < p {
                    assert(t[i] == x);
                } else {
                    assert(t[i + 1] == x);
                }
            }
            if x == k {
                assert(t[p as int] == x);
            }
            if t.contains(x) {
                let i = choose|i: int| 0 <= i < t.len() && t[i] == x;
                if i < p {
                    assert(s0[i] == x);
                } else if i > p {
                    assert(s0[i - 1] == x);
                }
            }
        }
    }
}

/// How a binned mesh is drawn.
#[derive(Clone, Copy, Debug, PartialEq, Eq, Structural)]
pub enum BinnedRenderPhaseType {
    MultidrawableMesh,
    BatchableMesh,
    UnbatchableMesh,
}

impl BinnedRenderPhaseType {
    /// Batchable meshes are multi-drawn where the GPU builds the batches
    /// indirectly.
    pub fn mesh(batchable: bool, multi_draw_indirect: bool) -> (r: Self)
        ensures
            r == (if !batchable {
                BinnedRenderPhaseType::UnbatchableMesh
            } else if multi_draw_indirect {
                BinnedRenderPhaseType::MultidrawableMesh
            } else {
                BinnedRenderPhaseType::BatchableMesh
            }),
    {
        if !batchable {
            BinnedRenderPhaseType::UnbatchableMesh
        } else if multi_draw_indirect {
            BinnedRenderPhaseType::MultidrawableMesh
        } else {
            BinnedRenderPhaseType::BatchableMesh
        }
    }
}

/// One entity of a binned phase.
#[derive(Clone, Copy, Debug, PartialEq, Eq, Structural)]
pub struct BinnedEntity {
    pub batch_set_key: BatchSetKey,
    /// The mesh asset: instances of one mesh share a bin.
    pub bin_key: u64,
    pub render_entity: u64,
    pub main_entity: u64,
    pub phase_type: BinnedRenderPhaseType,
    /// The specialization tick the entity was binned with.
    pub change_tick: Tick,
    /// Confirmed or added in the current frame.
    pub valid: bool,
}

/// `s` with `x` pushed holds what `s` held and `x`.
pub proof fn lemma_push_contains(s: Seq<u64>, x: u64)
    ensures
        forall|y: u64| #[trigger] s.push(x).contains(y) == (s.contains(y) || y == x),
{
    assert forall|y: u64| #[trigger] s.push(x).contains(y) == (s.contains(y) || y == x) by {
        if s.contains(y) {
            let k = choose|k: int| 0 <= k < s.len() && s[k] == y;
            assert(s.push(x)[k] == y);
        }
        if s.push(x).contains(y) && y != x {
            let k = choose|k: int| 0 <= k < s.push(x).len() && s.push(x)[k] == y;
            assert(s[k] == y);
        }
        if y == x {
            assert(s.push(x)[s.len() as int] == y);
        }
    }
}

/// An entry with its confirmation mark cleared.
pub open spec fn cleared(b: BinnedEntity) -> BinnedEntity {
    BinnedEntity { valid: false, ..b }
}

/// A phase whose entities are grouped into batch sets and bins. Entities
/// are kept in the order in which they were first binned.
pub struct BinnedRenderPhase {
    pub entities: HashMap<u64, BinnedEntity>,
    pub order: Vec<u64>,
}

impl BinnedRenderPhase {
    pub open spec fn wf(&self) -> bool {
        &&& forall|e: u64| self.order@.contains(e) == self.entities@.contains_key(e)
        &&& forall|e: u64| #[trigger]
            self.entities@.contains_key(e) ==> self.entities@[e].main_entity == e
    }

    pub open spec fn has(&self, e: u64) -> bool {
        self.entities@.contains_key(e)
    }

    /// The entry of an entity of the phase.
    pub open spec fn entry(&self, e: u64) -> BinnedEntity {
        self.entities@[e]
    }

    /// No entity carries a confirmation mark: the state between frames.
    pub open spec fn settled(&self) -> bool {
        forall|e: u64| #[trigger] self.has(e) ==> !self.entry(e).valid
    }

    pub fn new() -> (r: Self)
        ensures
            r.wf(),
            r.settled(),
            forall|e: u64| !r.has(e),
    {
        BinnedRenderPhase { entities: HashMap::new(), order: Vec::new() }
    }

    /// Confirms an entity that is binned with the given tick, so that the
    /// next sweep keeps it. Returns whether it was.
    pub fn validate_cached_entity(&mut self, main_entity: u64, change_tick: Tick) -> (r: bool)
        requires
            old(self).wf(),
        ensures
            final(self).wf(),
            r == (old(self).has(main_entity) && old(self).entry(main_entity).change_tick
                == change_tick),
            !r ==> *final(self) == *old(self),
            r ==> final(self).order == old(self).order,
            forall|e: u64| final(self).has(e) == old(self).has(e),
            forall|e: u64|
                #![trigger final(self).entry(e)]
                old(self).has(e) ==> final(self).entry(e) == (if r && e == main_entity {
                    BinnedEntity { valid: true, ..old(self).entry(e) }
                } else {
                    old(self).entry(e)
                }),
    {
        let cur = match self.entities.get(&main_entity) {
            Some(c) => *c,
            None => {
                return false;
            },
        };
        if cur.change_tick == change_tick {
            self.entities.insert(main_entity, BinnedEntity { valid: true, ..cur });
            true
        } else {
            false
        }
    }

    /// Bins an entity, replacing any entry it had, and confirms it.
    pub fn add(
        &mut self,
        batch_set_key: BatchSetKey,
        bin_key: u64,
        entity: (u64, u64),
        phase_type: BinnedRenderPhaseType,
        change_tick: Tick,
    )
        requires
            old(self).wf(),
        ensures
            final(self).wf(),
            forall|e: u64| final(self).has(e) == (old(self).has(e) || e == entity.1),
            final(self).entry(entity.1) == (BinnedEntity {
                batch_set_key,
                bin_key,
                render_entity: entity.0,
                main_entity: entity.1,
                phase_type,
                change_tick,
                valid: true,
            }),
            forall|e: u64|
                #![trigger final(self).entry(e)]
                old(self).has(e) && e != entity.1 ==> final(self).entry(e) == old(self).entry(e),
    {
        let new_entry = BinnedEntity {
            batch_set_key,
            bin_key,
            render_entity: entity.0,
            main_entity: entity.1,
            phase_type,
            change_tick,
            valid: true,
        };
        if !self.entities.contains_key(&entity.1) {
            proof {
                lemma_push_contains(self.order@, entity.1);
            }
            self.order.push(entity.1);
        }
        self.entities.insert(entity.1, new_entry);
    }

    /// The batch sets of the phase, each once, in the order of `key_lt`:
    /// the order in which they are drawn.
    pub fn batch_sets(&self) -> (r: Vec<BatchSetKey>)
        requires
            self.wf(),
        ensures
            strictly_sorted(r@),
            forall|k: BatchSetKey|
                #[trigger] r@.contains(k) == (exists|e: u64|
                    self.has(e) && #[trigger] self.entry(e).batch_set_key == k),
    {
        let mut r: Vec<BatchSetKey> = Vec::new();
        let mut i: usize = 0;
        while i < self.order.len()
            invariant
                i <= self.order@.len(),
                self.wf(),
                strictly_sorted(r@),
                forall|k: BatchSetKey|
                    #[trigger] r@.contains(k) == (exists|j: int|
                        0 <= j < i && #[trigger] self.entities@[self.order@[j]].batch_set_key == k),
            decreases self.order@.len() - i,
        {
            let e = self.order[i];
            proof {
                assert(self.order@.contains(e));
            }
            let k = self.entities.get(&e).unwrap().batch_set_key;
            insert_sorted(&mut r, k);
            proof {
                assert forall|x: BatchSetKey| #[trigger] r@.contains(x) == (exists|j: int|
                    0 <= j < i + 1 && #[trigger] self.entities@[self.order@[j]].batch_set_key == x) by {
                    if x == k {
                        assert(self.entities@[self.order@[i as int]].batch_set_key == x);
                    }
                }
            }
            i = i + 1;
        }
        proof {
            assert forall|k: BatchSetKey| #[trigger] r@.contains(k) == (exists|e: u64|
                self.has(e) && #[trigger] self.entry(e).batch_set_key == k) by {
                if r@.contains(k) {
                    let j = choose|j: int|
                        0 <= j < i && #[trigger] self.entities@[self.order@[j]].batch_set_key == k;
                    let e = self.order@[j];
                    assert(self.order@.contains(e));
                    assert(self.has(e) && self.entry(e).batch_set_key == k);
                }
                if exists|e: u64| self.has(e) && #[trigger] self.entry(e).batch_set_key == k {
                    let e = choose|e: u64| self.has(e) && #[trigger] self.entry(e).batch_set_key == k;
                    assert(self.order@.contains(e));
                    let j = choose|j: int| 0 <= j < self.order@.len() && self.order@[j] == e;
                    assert(self.entities@[self.order@[j]].batch_set_key == k);
                }
            }
        }
        r
    }

    /// Removes every entity that was neither confirmed nor added since the
    /// last sweep, and clears the marks of those that stay.
    pub fn sweep_old_entities(&mut self)
        requires
            old(self).wf(),
        ensures
            final(self).wf(),
            final(self).settled(),
            forall|e: u64|
                final(self).has(e) == (old(self).has(e) && old(self).entry(e).valid),
            forall|e: u64|
                #![trigger final(self).entry(e)]
                final(self).has(e) ==> final(self).entry(e) == cleared(old(self).entry(e)),
    {
        let mut kept: HashMap<u64, BinnedEntity> = HashMap::new();
        let mut kept_order: Vec<u64> = Vec::new();
        let mut i: usize = 0;
        while i < self.order.len()
            invariant
                i <= self.order@.len(),
                self.wf(),
                forall|e: u64| kept_order@.contains(e) == kept@.contains_key(e),
                forall|e: u64|
                    kept@.contains_key(e) == (self.order@.subrange(0, i as int).contains(e)
                        && self.entities@[e].valid),
                forall|e: u64| #[trigger]
                    kept@.contains_key(e) ==> kept@[e] == cleared(self.entities@[e]),
            decreases self.order@.len() - i,
        {
            let e = self.order[i];
            proof {
                let s = self.order@;
                assert(s.subrange(0, i + 1) =~= s.subrange(0, i as int).push(e));
                lemma_push_contains(s.subrange(0, i as int), e);
                assert(s.contains(e));
            }
            let cur = *self.entities.get(&e).unwrap();
            if cur.valid && !kept.contains_key(&e) {
                proof {
                    lemma_push_contains(kept_order@, e);
                }
                kept_order.push(e);
                kept.insert(e, BinnedEntity { valid: false, ..cur });
            }
            i = i + 1;
        }
        proof {
            assert(self.order@.subrange(0, self.order@.len() as int) =~= self.order@);
        }
        self.entities = kept;
        self.order = kept_order;
    }
}

/// Measures view-space depth: the view matrix's depth row.
#[derive(Clone, Copy, Debug, PartialEq, Eq, Structural)]
pub struct ViewRangefinder3d {
    pub x: i32,
    pub y: i32,
    pub z: i32,
    pub w: i32,
}

/// A position in world space.
#[derive(Clone, Copy, Debug, PartialEq, Eq, Structural)]
pub struct Translation {
    pub x: i32,
    pub y: i32,
    pub z: i32,
}

impl ViewRangefinder3d {
    pub open spec fn depth(self, t: Translation) -> int {
        self.x * t.x + self.y * t.y + self.z * t.z + self.w
    }

    /// The view-space depth of a translation.
    pub fn distance_translation(&self, t: &Translation) -> (r: i128)
        ensures
            r == self.depth(*t),
            -0x1_0000_0000_0000_0000 <= r <= 0x1_0000_0000_0000_0000,
    {
        assert(-0x4000_0000_0000_0000 <= self.x * t.x <= 0x4000_0000_0000_0000) by (nonlinear_arith)
            requires
                -0x8000_0000 <= self.x < 0x8000_0000,
                -0x8000_0000 <= t.x < 0x8000_0000,
        ;
        assert(-0x4000_0000_0000_0000 <= self.y * t.y <= 0x4000_0000_0000_0000) by (nonlinear_arith)
            requires
                -0x8000_0000 <= self.y < 0x8000_0000,
                -0x8000_0000 <= t.y < 0x8000_0000,
        ;
        assert(-0x4000_0000_0000_0000 <= self.z * t.z <= 0x4000_0000_0000_0000) by (nonlinear_arith)
            requires
                -0x8000_0000 <= self.z < 0x8000_0000,
                -0x8000_0000 <= t.z < 0x8000_0000,
        ;
        (self.x as i128) * (t.x as i128) + (self.y as i128) * (t.y as i128) + (self.z as i128) * (
        t.z as i128) + (self.w as i128)
    }
}

/// One item of a sorted phase.
#[derive(Clone, Copy, Debug, PartialEq, Eq, Structural)]
pub struct SortedPhaseItem {
    pub render_entity: u64,
    pub main_entity: u64,
    pub draw_function: u32,
    pub pipeline: u32,
    /// View-space depth plus the material's depth bias.
    pub distance: i128,
    pub indexed: bool,
}

pub open spec fn has_item(s: Seq<SortedPhaseItem>, e: u64) -> bool {
    exists|i: int| 0 <= i < s.len() && #[trigger] s[i].main_entity == e
}

/// Inserting an item adds its entity and keeps the others.
pub proof fn lemma_insert_has(s: Seq<SortedPhaseItem>, p: int, item: SortedPhaseItem)
    requires
        0 <= p <= s.len(),
    ensures
        forall|e: u64| #[trigger]
            has_item(s.insert(p, item), e) == (has_item(s, e) || e == item.main_entity),
{
    let t = s.insert(p, item);
    assert forall|e: u64| #[trigger] has_item(t, e) == (has_item(s, e) || e == item.main_entity) by {
        if has_item(s, e) {
            let i = choose|i: int| 0 <= i < s.len() && #[trigger] s[i].main_entity == e;
            if i < p {
                assert(t[i].main_entity == e);
            } else {
                assert(t[i + 1].main_entity == e);
            }
        }
        if e == item.main_entity {
            assert(t[p].main_entity == e);
        }
        if has_item(t, e) {
            let i = choose|i: int| 0 <= i < t.len() && #[trigger] t[i].main_entity == e;
            if i < p {
                assert(s[i].main_entity == e);
            } else if i > p {
                assert(s[i - 1].main_entity == e);
            }
        }
    }
}

pub open spec fn sorted_by_distance(s: Seq<SortedPhaseItem>) -> bool {
    forall|a: int, b: int| 0 <= a < b < s.len() ==> s[a].distance <= s[b].distance
}

/// A phase drawn back to front: items in ascending order of distance, items
/// of equal distance in the order in which they were added.
pub struct SortedRenderPhase {
    pub items: Vec<SortedPhaseItem>,
}

impl SortedRenderPhase {
    pub open spec fn wf(&self) -> bool {
        sorted_by_distance(self.items@)
    }

    pub open spec fn has(&self, e: u64) -> bool {
        has_item(self.items@, e)
    }

    pub fn new() -> (r: Self)
        ensures
            r.wf(),
            r.items@.len() == 0,
    {
        SortedRenderPhase { items: Vec::new() }
    }

    /// Empties the phase for a new frame.
    pub fn clear(&mut self)
        ensures
            final(self).wf(),
            final(self).items@.len() == 0,
    {
        self.items.clear();
    }

    /// Adds an item after every item that is not farther along than it and
    /// before the rest.
    pub fn add(&mut self, item: SortedPhaseItem)
        requires
            old(self).wf(),
        ensures
            final(self).wf(),
            exists|p: int|
                0 <= p <= old(self).items@.len() && final(self).items@ == old(self).items@.insert(
                    p,
                    item,
                ) && (forall|j: int| 0 <= j < p ==> old(self).items@[j].distance <= item.distance)
                    && (forall|j: int|
                    p <= j < old(self).items@.len() ==> old(self).items@[j].distance
                        > item.distance),
    {
        let mut p: usize = self.items.len();
        while p > 0 && self.items[p - 1].distance > item.distance
            invariant
                p <= self.items@.len(),
                forall|j: int| p <= j < self.items@.len() ==> self.items@[j].distance > item.distance,
            decreases p,
        {
            p = p - 1;
        }
        let ghost s0 = self.items@;
        proof {
            assert forall|j: int| 0 <= j < p implies s0[j].distance <= item.distance by {
                if p > 0 {
                    assert(s0[p - 1].distance <= item.distance);
                }
            }
        }
        self.items.insert(p, item);
        assert(self.items@ == s0.insert(p as int, item));
        proof {
            let s = self.items@;
            assert forall|a: int, b: int| 0 <= a < b < s.len() implies s[a].distance
                <= s[b].distance by {
                if b < p {
                } else if b == p {
                } else if a < p {
                    assert(s[b] == s0[b - 1]);
                } else if a == p {
                    assert(s[b] == s0[b - 1]);
                } else {
                    assert(s[a] == s0[a - 1] && s[b] == s0[b - 1]);
                }
            }
        }
    }
}

/// The four phases of one view.
pub struct ViewPhases {
    pub opaque: BinnedRenderPhase,
    pub alpha_mask: BinnedRenderPhase,
    pub transmissive: SortedRenderPhase,
    pub transparent: SortedRenderPhase,
}

impl ViewPhases {
    pub open spec fn wf(&self) -> bool {
        &&& self.opaque.wf()
        &&& self.alpha_mask.wf()
        &&& self.transmissive.wf()
        &&& self.transparent.wf()
    }

    pub fn new() -> (r: Self)
        ensures
            r.wf(),
            r.opaque.settled(),
            r.alpha_mask.settled(),
            forall|e: u64| !r.opaque.has(e) && !r.alpha_mask.has(e),
            r.transmissive.items@.len() == 0,
            r.transparent.items@.len() == 0,
    {
        ViewPhases {
            opaque: BinnedRenderPhase::new(),
            alpha_mask: BinnedRenderPhase::new(),
            transmissive: SortedRenderPhase::new(),
            transparent: SortedRenderPhase::new(),
        }
    }
}

/// The phases of each view that renders meshes, by retained view entity.
pub struct ViewRenderPhases {
    pub views: HashMap<u64, ViewPhases>,
}

impl ViewRenderPhases {
    pub open spec fn wf(&self) -> bool {
        forall|v: u64| #[trigger] self.views@.contains_key(v) ==> self.views@[v].wf()
    }

    pub fn new() -> (r: Self)
        ensures
            r.wf(),
            r.views@ == Map::<u64, ViewPhases>::empty(),
    {
        ViewRenderPhases { views: HashMap::new() }
    }

    pub fn contains(&self, view: u64) -> (r: bool)
        ensures
            r == self.views@.contains_key(view),
    {
        self.views.contains_key(&view)
    }

    /// Gives a view a set of empty phases, or empties the sorted phases of
    /// the set it has, for a new frame. Binned phases keep their entities.
    pub fn insert_or_clear(&mut self, view: u64)
        requires
            old(self).wf(),
        ensures
            final(self).wf(),
            final(self).views@.dom() == old(self).views@.dom().insert(view),
            forall|v: u64| v != view ==> #[trigger] final(self).views@.get(v) == old(self).views@.get(v),
            final(self).views@[view].transmissive.items@.len() == 0,
            final(self).views@[view].transparent.items@.len() == 0,
            old(self).views@.contains_key(view) ==> {
                &&& final(self).views@[view].opaque == old(self).views@[view].opaque
                &&& final(self).views@[view].alpha_mask == old(self).views@[view].alpha_mask
            },
            !old(self).views@.contains_key(view) ==> {
                &&& final(self).views@[view].opaque.settled()
                &&& final(self).views@[view].alpha_mask.settled()
                &&& forall|e: u64|
                    !final(self).views@[view].opaque.has(e) && !final(self).views@[
                        view
                    ].alpha_mask.has(e)
            },
    {
        let phases = match self.views.remove(&view) {
            Some(mut p) => {
                p.transmissive.clear();
                p.transparent.clear();
                p
            },
            None => ViewPhases::new(),
        };
        self.views.insert(view, phases);
        assert(self.views@.dom() =~= old(self).views@.dom().insert(view));
    }
}

} // verus!
