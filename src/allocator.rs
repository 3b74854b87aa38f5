//! The bind-group allocator: stable binding identities for material
//! instances, with the GPU-side bind groups realized in a later pass.
use vstd::prelude::*;

verus! {

/// Where a material instance's data is bound: a bind group and a slot in it.
#[derive(Clone, Copy, Debug, PartialEq, Eq, Hash, Structural)]
pub struct MaterialBindingId {
    pub group: u32,
    pub slot: u32,
}

/// The state of one binding.
#[derive(Clone, Copy, Debug, PartialEq, Eq, Structural)]
pub enum SlotState {
    /// Not allocated.
    Free,
    /// Allocated, with no data attached yet.
    Reserved,
    /// Holds prepared data: the extra-data fingerprint that keys pipelines,
    /// and the bind group when the material supplied its own.
    Ready { extra_data: u64, custom_bind_group: Option<u64> },
}

/// One bind group of the allocator.
#[derive(Clone, Copy, Debug, PartialEq, Eq, Structural)]
pub struct MaterialBindGroup {
    pub state: SlotState,
    /// The realized GPU bind group, once one has been created for the
    /// current data.
    pub bind_group: Option<u64>,
}

impl MaterialBindGroup {
    pub fn get_bind_group(&self) -> (r: Option<u64>)
        ensures
            r == self.bind_group,
    {
        self.bind_group
    }

    /// The extra data of the slot, which keys the pipelines of materials
    /// bound there. Absent until data is attached.
    pub fn get_extra_data(&self, slot: u32) -> (r: Option<u64>)
        ensures
            r == (if slot == 0 {
                extra_data_of(self.state)
            } else {
                None
            }),
    {
        if slot != 0 {
            return None;
        }
        match self.state {
            SlotState::Ready { extra_data, .. } => Some(extra_data),
            _ => None,
        }
    }
}

pub open spec fn extra_data_of(s: SlotState) -> Option<u64> {
    match s {
        SlotState::Ready { extra_data, .. } => Some(extra_data),
        _ => None,
    }
}

/// Hands out one bind group per material instance. Freed groups are reused.
pub struct MaterialBindGroupAllocator {
    pub groups: Vec<MaterialBindGroup>,
}

impl MaterialBindGroupAllocator {
    /// The state of a binding; bindings outside the allocator are free.
    pub open spec fn slot_of(&self, id: MaterialBindingId) -> SlotState {
        if id.slot == 0 && id.group < self.groups@.len() {
            self.groups@[id.group as int].state
        } else {
            SlotState::Free
        }
    }

    pub open spec fn bind_group_of(&self, group: u32) -> Option<u64> {
        if group < self.groups@.len() {
            self.groups@[group as int].bind_group
        } else {
            None
        }
    }

    /// A live binding: allocated and not yet freed.
    pub open spec fn is_live(&self, id: MaterialBindingId) -> bool {
        self.slot_of(id) != SlotState::Free
    }

    pub open spec fn wf(&self) -> bool {
        &&& self.groups@.len() <= u32::MAX
        &&& forall|i: int|
            0 <= i < self.groups@.len() && #[trigger] self.groups@[i].state == SlotState::Free
                ==> self.groups@[i].bind_group.is_none()
    }

    pub fn new() -> (r: MaterialBindGroupAllocator)
        ensures
            r.wf(),
            forall|id: MaterialBindingId| !r.is_live(id),
    {
        MaterialBindGroupAllocator { groups: Vec::new() }
    }

    /// Reserves a binding with no GPU resources yet.
    pub fn allocate(&mut self) -> (id: MaterialBindingId)
        requires
            old(self).wf(),
            old(self).groups@.len() < u32::MAX,
        ensures
            final(self).wf(),
            !old(self).is_live(id),
            final(self).slot_of(id) == SlotState::Reserved,
            final(self).bind_group_of(id.group).is_none(),
            forall|o: MaterialBindingId| o != id ==> final(self).slot_of(o) == old(self).slot_of(o),
            forall|g: u32| g != id.group ==> final(self).bind_group_of(g) == old(self).bind_group_of(g),
    {
        let fresh = MaterialBindGroup { state: SlotState::Reserved, bind_group: None };
        let mut i: usize = 0;
        while i < self.groups.len() && !matches!(self.groups[i].state, SlotState::Free)
            invariant
                i <= self.groups@.len(),
                forall|j: int| 0 <= j < i ==> self.groups@[j].state != SlotState::Free,
            decreases self.groups@.len() - i,
        {
            i = i + 1;
        }
        if i < self.groups.len() {
            self.groups.set(i, fresh);
        } else {
            self.groups.push(fresh);
        }
        MaterialBindingId { group: i as u32, slot: 0 }
    }

    /// Attaches prepared data to a live binding. Its bind group is built by
    /// the next preparation pass.
    pub fn init(&mut self, id: MaterialBindingId, extra_data: u64)
        requires
            old(self).wf(),
            old(self).is_live(id),
        ensures
            final(self).wf(),
            final(self).slot_of(id) == (SlotState::Ready { extra_data, custom_bind_group: None }),
            final(self).bind_group_of(id.group).is_none(),
            forall|o: MaterialBindingId| o != id ==> final(self).slot_of(o) == old(self).slot_of(o),
            forall|g: u32| g != id.group ==> final(self).bind_group_of(g) == old(self).bind_group_of(g),
    {
        let g = id.group as usize;
        self.groups.set(g, MaterialBindGroup {
            state: SlotState::Ready { extra_data, custom_bind_group: None },
            bind_group: None,
        });
    }

    /// Attaches a bind group that the material built itself, with its
    /// extra data, to a live binding.
    pub fn init_custom(&mut self, id: MaterialBindingId, bind_group: u64, extra_data: u64)
        requires
            old(self).wf(),
            old(self).is_live(id),
        ensures
            final(self).wf(),
            final(self).slot_of(id) == (SlotState::Ready {
                extra_data,
                custom_bind_group: Some(bind_group),
            }),
            final(self).bind_group_of(id.group) == Some(bind_group),
            forall|o: MaterialBindingId| o != id ==> final(self).slot_of(o) == old(self).slot_of(o),
            forall|g: u32| g != id.group ==> final(self).bind_group_of(g) == old(self).bind_group_of(g),
    {
        let g = id.group as usize;
        self.groups.set(g, MaterialBindGroup {
            state: SlotState::Ready { extra_data, custom_bind_group: Some(bind_group) },
            bind_group: Some(bind_group),
        });
    }

    /// Releases a binding and its bind group. Freeing a free binding does
    /// nothing.
    pub fn free(&mut self, id: MaterialBindingId)
        requires
            old(self).wf(),
        ensures
            final(self).wf(),
            final(self).slot_of(id) == SlotState::Free,
            old(self).is_live(id) ==> final(self).bind_group_of(id.group).is_none(),
            forall|o: MaterialBindingId| o != id ==> final(self).slot_of(o) == old(self).slot_of(o),
            forall|g: u32| g != id.group ==> final(self).bind_group_of(g) == old(self).bind_group_of(g),
            !old(self).is_live(id) ==> *final(self) == *old(self),
    {
        if id.slot == 0 && (id.group as usize) < self.groups.len() && !matches!(
            self.groups[id.group as usize].state,
            SlotState::Free,
        ) {
            let g = id.group as usize;
            self.groups.set(g, MaterialBindGroup { state: SlotState::Free, bind_group: None });
        }
    }

    /// The group, while a material is bound in it.
    pub fn get(&self, group: u32) -> (r: Option<&MaterialBindGroup>)
        ensures
            r matches Some(b) ==> group < self.groups@.len() && *b == self.groups@[group as int],
            r.is_some() <==> self.is_live(MaterialBindingId { group, slot: 0 }),
    {
        let g = group as usize;
        if g < self.groups.len() && !matches!(self.groups[g].state, SlotState::Free) {
            Some(&self.groups[g])
        } else {
            None
        }
    }

    /// The extra data of a binding, once data is attached.
    pub fn extra_data(&self, id: MaterialBindingId) -> (r: Option<u64>)
        ensures
            r == extra_data_of(self.slot_of(id)),
    {
        match self.get(id.group) {
            Some(b) => b.get_extra_data(id.slot),
            None => None,
        }
    }

    /// The groups whose data is attached but whose bind group has not been
    /// created yet, in group order. The preparation pass creates one bind
    /// group for each and hands it back through `set_bind_group`.
    pub fn pending_bind_groups(&self) -> (r: Vec<u32>)
        requires
            self.wf(),
        ensures
            forall|g: u32|
                r@.contains(g) <==> (g < self.groups@.len() && (self.groups@[g as int].state
                    matches SlotState::Ready { .. }) && self.groups@[g as int].bind_group.is_none()),
            forall|a: int, b: int| 0 <= a < b < r@.len() ==> r@[a] < r@[b],
    {
        let mut r: Vec<u32> = Vec::new();
        let mut i: usize = 0;
        while i < self.groups.len()
            invariant
                i <= self.groups@.len(),
                self.groups@.len() <= u32::MAX,
                forall|k: int| 0 <= k < r@.len() ==> r@[k] < i,
                forall|a: int, b: int| 0 <= a < b < r@.len() ==> r@[a] < r@[b],
                forall|g: u32|
                    g < i ==> (r@.contains(g) <==> ((self.groups@[g as int].state
                        matches SlotState::Ready { .. })
                        && self.groups@[g as int].bind_group.is_none())),
                forall|g: u32| g >= i ==> !r@.contains(g),
            decreases self.groups@.len() - i,
        {
            let grp = self.groups[i];
            let ghost r0 = r@;
            if matches!(grp.state, SlotState::Ready { .. }) && grp.bind_group.is_none() {
                r.push(i as u32);
                assert(r@.last() == i as u32);
            }
            proof {
                assert forall|g: u32| #[trigger] r@.contains(g) == (r0.contains(g) || (r@.len()
                    > r0.len() && g == i as u32)) by {
                    if r0.contains(g) {
                        let k = choose|k: int| 0 <= k < r0.len() && r0[k] == g;
                        assert(r@[k] == g);
                    }
                    if r@.contains(g) {
                        let k = choose|k: int| 0 <= k < r@.len() && r@[k] == g;
                        if k < r0.len() {
                            assert(r0[k] == g);
                        }
                    }
                }
            }
            i = i + 1;
        }
        r
    }

    /// Records the bind group created for a group whose data is attached.
    pub fn set_bind_group(&mut self, group: u32, bind_group: u64)
        requires
            old(self).wf(),
        ensures
            final(self).wf(),
            forall|o: MaterialBindingId| final(self).slot_of(o) == old(self).slot_of(o),
            forall|g: u32|
                g != group ==> final(self).bind_group_of(g) == old(self).bind_group_of(g),
            final(self).bind_group_of(group) == (if old(self).is_live(
                MaterialBindingId { group, slot: 0 },
            ) {
                Some(bind_group)
            } else {
                old(self).bind_group_of(group)
            }),
    {
        let g = group as usize;
        if g < self.groups.len() && !matches!(self.groups[g].state, SlotState::Free) {
            let st = self.groups[g].state;
            self.groups.set(g, MaterialBindGroup { state: st, bind_group: Some(bind_group) });
        }
    }
}

/// Records the bind groups created for the pending groups of the
/// allocator: each (group, bind group) pair in turn.
pub fn prepare_material_bind_groups(
    allocator: &mut MaterialBindGroupAllocator,
    created: &Vec<(u32, u64)>,
)
    requires
        old(allocator).wf(),
    ensures
        final(allocator).wf(),
        forall|o: MaterialBindingId| final(allocator).slot_of(o) == old(allocator).slot_of(o),
        forall|k: int|
            0 <= k < created@.len() && old(allocator).is_live(
                MaterialBindingId { group: created@[k].0, slot: 0 },
            ) && (forall|l: int| k < l < created@.len() ==> created@[l].0 != created@[k].0)
                ==> #[trigger] final(allocator).bind_group_of(created@[k].0) == Some(created@[k].1),
{
    let mut i: usize = 0;
    while i < created.len()
        invariant
            i <= created@.len(),
            allocator.wf(),
            forall|o: MaterialBindingId| allocator.slot_of(o) == old(allocator).slot_of(o),
            forall|k: int|
                0 <= k < i && old(allocator).is_live(MaterialBindingId { group: created@[k].0, slot: 0 })
                    && (forall|l: int| k < l < i ==> created@[l].0 != created@[k].0)
                    ==> #[trigger] allocator.bind_group_of(created@[k].0) == Some(created@[k].1),
        decreases created@.len() - i,
    {
        let (g, b) = created[i];
        allocator.set_bind_group(g, b);
        i = i + 1;
    }
}

/// The id of a material's bind group, once it exists.
#[derive(Clone, Copy, Debug, PartialEq, Eq, Structural)]
pub struct MaterialBindGroupId(pub Option<u64>);

impl MaterialBindGroupId {
    pub fn new(id: u64) -> (r: Self)
        ensures
            r.0 == Some(id),
    {
        MaterialBindGroupId(Some(id))
    }
}

} // verus!
