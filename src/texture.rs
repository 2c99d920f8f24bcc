//! Textures and the store that registers them under opaque handles and
//! exposes them, slot by slot, as one descriptor array.
use vstd::prelude::*;
use ash::vk;
use gpu_allocator::vulkan::Allocation;
use std::collections::HashMap;
use crate::error::RuntimeError;

verus! {

broadcast use vstd::std_specs::hash::group_hash_axioms;

/// A sampled RGBA8 image on the GPU: image, view, sampler and the memory
/// allocation the image is bound to.
pub struct Texture {
    image: vk::Image,
    width: u32,
    height: u32,
    image_view: vk::ImageView,
    sampler: vk::Sampler,
    allocation: Option<Allocation>,
}

/// The abstract state of a texture.
pub struct TextureView {
    pub image: vk::Image,
    pub width: u32,
    pub height: u32,
    pub image_view: vk::ImageView,
    pub sampler: vk::Sampler,
    /// The allocation the texture still owns; `None` once released.
    pub allocation: Option<Allocation>,
}

impl View for Texture {
    type V = TextureView;

    closed spec fn view(&self) -> TextureView {
        TextureView {
            image: self.image,
            width: self.width,
            height: self.height,
            image_view: self.image_view,
            sampler: self.sampler,
            allocation: self.allocation,
        }
    }
}

impl TextureView {
    /// The same GPU objects and extent.
    pub open spec fn same_objects(&self, o: TextureView) -> bool {
        &&& self.image == o.image
        &&& self.width == o.width
        &&& self.height == o.height
        &&& self.image_view == o.image_view
        &&& self.sampler == o.sampler
    }
}

impl Texture {
    /// Assembles a texture from its GPU objects, bound to `allocation`.
    pub fn new(
        image: vk::Image,
        width: u32,
        height: u32,
        image_view: vk::ImageView,
        sampler: vk::Sampler,
        allocation: Allocation,
    ) -> (r: Texture)
        ensures
            r@ == (TextureView {
                image,
                width,
                height,
                image_view,
                sampler,
                allocation: Some(allocation),
            }),
    {
        Texture { image, width, height, image_view, sampler, allocation: Some(allocation) }
    }

    pub fn image(&self) -> (r: vk::Image)
        ensures
            r == self@.image,
    {
        self.image
    }

    pub fn width(&self) -> (r: u32)
        ensures
            r == self@.width,
    {
        self.width
    }

    pub fn height(&self) -> (r: u32)
        ensures
            r == self@.height,
    {
        self.height
    }

    pub fn image_view(&self) -> (r: vk::ImageView)
        ensures
            r == self@.image_view,
    {
        self.image_view
    }

    pub fn sampler(&self) -> (r: vk::Sampler)
        ensures
            r == self@.sampler,
    {
        self.sampler
    }

    /// Hands the allocation out to be freed, exactly once: the first call
    /// returns it, every later call returns `None`.
    pub fn take_allocation(&mut self) -> (r: Option<Allocation>)
        ensures
            r == old(self)@.allocation,
            final(self)@.allocation is None,
            final(self)@.same_objects(old(self)@),
    {
        self.allocation.take()
    }
}

/// The external name of a registered texture, unrelated to its slot.
#[derive(Clone, Copy, Debug, PartialEq, Eq, Structural)]
pub struct TextureHandle {
    id: u128,
}

impl TextureHandle {
    pub closed spec fn spec_id(&self) -> u128 {
        self.id
    }

    /// The handle's identifier (the bits of a random UUID).
    pub fn id(&self) -> (r: u128)
        ensures
            r == self.spec_id(),
    {
        self.id
    }
}

/// Relies on ash's `DescriptorImageInfo` builder: the built struct holds the
/// given view and sampler, with the `SHADER_READ_ONLY_OPTIMAL` layout.
#[verifier::external_body]
fn shader_read_descriptor(view: vk::ImageView, sampler: vk::Sampler) -> (r:
    vk::DescriptorImageInfo)
    ensures
        r.image_view == view,
        r.sampler == sampler,
{
    vk::DescriptorImageInfo::builder()
        .image_layout(vk::ImageLayout::SHADER_READ_ONLY_OPTIMAL)
        .image_view(view)
        .sampler(sampler)
        .build()
}

/// Textures in registration order, and the slot of each handle.
pub struct TextureStore {
    textures_map: HashMap<u128, u32>,
    textures: Vec<Texture>,
}

/// The abstract state of a texture store.
pub struct TextureStoreView {
    /// The slot of each registered identifier.
    pub handles: Map<u128, nat>,
    /// The textures, by slot.
    pub textures: Seq<Texture>,
}

impl View for TextureStore {
    type V = TextureStoreView;

    closed spec fn view(&self) -> TextureStoreView {
        TextureStoreView {
            handles: Map::new(
                |k: u128| self.textures_map@.contains_key(k),
                |k: u128| self.textures_map@[k] as nat,
            ),
            textures: self.textures@,
        }
    }
}

impl TextureStoreView {
    /// Handles and slots correspond one to one.
    pub open spec fn wf(&self) -> bool {
        &&& self.textures.len() <= u32::MAX
        &&& forall|k: u128| #[trigger]
            self.handles.contains_key(k) ==> self.handles[k] < self.textures.len()
        &&& forall|k1: u128, k2: u128|
            #![trigger self.handles[k1], self.handles[k2]]
            self.handles.contains_key(k1) && self.handles.contains_key(k2) && k1 != k2
                ==> self.handles[k1] != self.handles[k2]
        &&& forall|s: nat| s < self.textures.len() ==> #[trigger] self.is_named(s)
    }

    /// Some handle names slot `s`.
    pub open spec fn is_named(&self, s: nat) -> bool {
        exists|k: u128| #[trigger] self.handles.contains_key(k) && self.handles[k] == s
    }
}

/// The descriptor of one texture for a combined image sampler binding.
pub open spec fn describes(d: vk::DescriptorImageInfo, t: Texture) -> bool {
    d.image_view == t@.image_view && d.sampler == t@.sampler
}

/// One descriptor per texture, in slot order.
pub open spec fn describes_all(ds: Seq<vk::DescriptorImageInfo>, ts: Seq<Texture>) -> bool {
    &&& ds.len() == ts.len()
    &&& forall|i: int| 0 <= i < ds.len() ==> describes(#[trigger] ds[i], ts[i])
}

impl TextureStore {
    /// An empty store.
    pub fn new() -> (r: TextureStore)
        ensures
            r@.wf(),
            r@.textures.len() == 0,
            r@.handles.is_empty(),
    {
        let r = TextureStore { textures_map: HashMap::new(), textures: Vec::new() };
        assert(r@.handles =~= Map::empty());
        r
    }

    /// Number of registered textures.
    pub fn len(&self) -> (r: usize)
        ensures
            r == self@.textures.len(),
    {
        self.textures.len()
    }

    /// The texture in slot `slot`.
    pub fn texture(&self, slot: usize) -> (r: &Texture)
        requires
            slot < self@.textures.len(),
        ensures
            *r == self@.textures[slot as int],
    {
        &self.textures[slot]
    }

    /// Whether `id` names a registered texture.
    pub fn contains_handle(&self, id: u128) -> (r: bool)
        ensures
            r == self@.handles.contains_key(id),
    {
        self.textures_map.contains_key(&id)
    }

    /// The slot of the texture that `handle` names, if it is registered here.
    pub fn slot_of(&self, handle: &TextureHandle) -> (r: Option<u32>)
        ensures
            match r {
                Some(s) => self@.handles.contains_key(handle.spec_id()) && s == self@.handles[handle.spec_id()],
                None => !self@.handles.contains_key(handle.spec_id()),
            },
    {
        match self.textures_map.get(&handle.id) {
            Some(s) => Some(*s),
            None => None,
        }
    }

    /// Accepts `drawn` (say, the bits of a random UUID) as the identifier
    /// of a new texture when no registered texture uses it.
    pub fn fresh_handle_id(&self, drawn: u128) -> (r: Option<u128>)
        ensures
            r == if self@.handles.contains_key(drawn) {
                None::<u128>
            } else {
                Some(drawn)
            },
    {
        if self.textures_map.contains_key(&drawn) {
            None
        } else {
            Some(drawn)
        }
    }

    /// Registers a texture under the fresh identifier `id` once creating and
    /// uploading it has succeeded: the texture takes the next slot. When
    /// creation failed the error is returned and the store is unchanged.
    pub fn register_texture(&mut self, id: u128, created: Result<Texture, RuntimeError>) -> (r:
        Result<TextureHandle, RuntimeError>)
        requires
            old(self)@.wf(),
            !old(self)@.handles.contains_key(id),
            old(self)@.textures.len() < u32::MAX,
        ensures
            final(self)@.wf(),
            match created {
                Ok(t) => {
                    &&& r is Ok && r->Ok_0.spec_id() == id
                    &&& final(self)@ == registered(old(self)@, id, t)
                },
                Err(e) => {
                    &&& r == Err::<TextureHandle, RuntimeError>(e)
                    &&& final(self)@ == old(self)@
                },
            },
    {
        match created {
            Err(e) => Err(e),
            Ok(texture) => {
                let ghost texture_ghost = texture;
                let slot: u32 = self.textures.len() as u32;
                let ghost old_view = self@;
                self.textures.push(texture);
                self.textures_map.insert(id, slot);
                proof {
                    assert(self@.handles =~= old_view.handles.insert(id, old_view.textures.len()));
                    lemma_registration_fresh(old_view, id, texture_ghost);
                }
                Ok(TextureHandle { id })
            },
        }
    }

    /// One descriptor per texture, in slot order, each naming the texture's
    /// view and sampler in the shader-read-only layout. The array is built
    /// afresh on every call.
    pub fn get_descriptor_image_info(&self) -> (r: Vec<vk::DescriptorImageInfo>)
        ensures
            describes_all(r@, self@.textures),
    {
        let mut out: Vec<vk::DescriptorImageInfo> = Vec::new();
        let mut i: usize = 0;
        while i < self.textures.len()
            invariant
                i <= self.textures@.len(),
                out@.len() == i,
                forall|j: int| 0 <= j < i ==> describes(#[trigger] out@[j], self@.textures[j]),
            decreases self.textures@.len() - i,
        {
            let t = &self.textures[i];
            out.push(shader_read_descriptor(t.image_view, t.sampler));
            i = i + 1;
        }
        out
    }

    /// Hands out the allocations of all textures, in slot order, to be freed;
    /// afterwards no texture owns one, and a second call returns nothing.
    pub fn take_allocations(&mut self) -> (r: Vec<Allocation>)
        requires
            old(self)@.wf(),
        ensures
            final(self)@.wf(),
            final(self)@.handles == old(self)@.handles,
            final(self)@.textures.len() == old(self)@.textures.len(),
            forall|i: int|
                0 <= i < final(self)@.textures.len() ==> (#[trigger] final(self)@.textures[i])@.allocation is None,
            r@ == live_allocations(old(self)@.textures),
    {
        let mut out: Vec<Allocation> = Vec::new();
        let mut i: usize = 0;
        let ghost before = self@.textures;
        while i < self.textures.len()
            invariant
                i <= self.textures@.len(),
                self.textures@.len() == before.len(),
                self@.handles == old(self)@.handles,
                self@.wf(),
                old(self)@.wf(),
                before == old(self)@.textures,
                forall|j: int| 0 <= j < i ==> (#[trigger] self.textures@[j])@.allocation is None,
                forall|j: int| i <= j < before.len() ==> #[trigger] self.textures@[j] == before[j],
                out@ == live_allocations(before.take(i as int)),
            decreases self.textures@.len() - i,
        {
            let mut t = self.textures.remove(i);
            let a = t.take_allocation();
            self.textures.insert(i, t);
            proof {
                assert(before.take(i + 1).drop_last() =~= before.take(i as int));
            }
            match a {
                Some(a) => out.push(a),
                None => {},
            }
            proof {
                assert(self@.handles =~= old(self)@.handles);
                assert forall|s: nat| s < self@.textures.len() implies #[trigger] self@.is_named(s) by {
                    assert(old(self)@.is_named(s));
                }
            }
            i = i + 1;
        }
        proof {
            assert(before.take(before.len() as int) =~= before);
        }
        out
    }
}

/// The allocations still owned by `ts`, in order.
pub open spec fn live_allocations(ts: Seq<Texture>) -> Seq<Allocation>
    decreases ts.len(),
{
    if ts.len() == 0 {
        seq![]
    } else {
        let rest = live_allocations(ts.drop_last());
        match ts.last()@.allocation {
            Some(a) => rest.push(a),
            None => rest,
        }
    }
}

/// The store after registering `t` under `id`.
pub open spec fn registered(before: TextureStoreView, id: u128, t: Texture) -> TextureStoreView {
    TextureStoreView {
        handles: before.handles.insert(id, before.textures.len()),
        textures: before.textures.push(t),
    }
}

/// Registering under a fresh identifier yields a handle distinct from every
/// earlier one, leaves earlier handles naming their slots, and adds exactly
/// one slot, at the end; handles and slots still correspond one to one.
pub proof fn lemma_registration_fresh(before: TextureStoreView, id: u128, t: Texture)
    requires
        before.wf(),
        !before.handles.contains_key(id),
        before.textures.len() < u32::MAX,
    ensures
        registered(before, id, t).wf(),
        registered(before, id, t).textures.len() == before.textures.len() + 1,
        registered(before, id, t).handles[id] == before.textures.len(),
        forall|k: u128| #[trigger]
            before.handles.contains_key(k) ==> k != id && registered(before, id, t).handles[k]
                == before.handles[k],
{
    let after = registered(before, id, t);
    assert forall|s: nat| s < after.textures.len() implies #[trigger] after.is_named(s) by {
        if s < before.textures.len() {
            assert(before.is_named(s));
            let k = choose|k: u128| #[trigger]
                before.handles.contains_key(k) && before.handles[k] == s;
            assert(after.handles.contains_key(k) && after.handles[k] == s);
        } else {
            assert(after.handles.contains_key(id) && after.handles[id] == s);
        }
    }
}

/// Registration keeps the descriptor array stable: after registering `t`,
/// the array has one more entry, the earlier entries name the same views and
/// samplers in the same slots, and the new last entry describes `t`.
pub proof fn lemma_descriptors_stable(
    before: TextureStoreView,
    id: u128,
    t: Texture,
    r0: Seq<vk::DescriptorImageInfo>,
    r1: Seq<vk::DescriptorImageInfo>,
)
    requires
        describes_all(r0, before.textures),
        describes_all(r1, registered(before, id, t).textures),
    ensures
        r1.len() == r0.len() + 1,
        forall|i: int|
            0 <= i < r0.len() ==> (#[trigger] r1[i]).image_view == r0[i].image_view && r1[i].sampler
                == r0[i].sampler,
        describes(r1[r0.len() as int], t),
{
    assert forall|i: int| 0 <= i < r0.len() implies (#[trigger] r1[i]).image_view
        == r0[i].image_view && r1[i].sampler == r0[i].sampler by {
        assert(describes(r0[i], before.textures[i]));
        assert(describes(r1[i], registered(before, id, t).textures[i]));
    }
    assert(describes(r1[r0.len() as int], registered(before, id, t).textures[r0.len() as int]));
}

/// A run of registrations, each under an identifier fresh for the store it
/// was made on, hands out pairwise distinct identifiers, all of which stay
/// registered: `stores[i + 1]` is `stores[i]` after registering `ids[i]`.
pub proof fn lemma_registrations_distinct(
    stores: Seq<TextureStoreView>,
    ids: Seq<u128>,
    ts: Seq<Texture>,
)
    requires
        stores.len() == ids.len() + 1,
        ts.len() == ids.len(),
        forall|i: int|
            0 <= i < ids.len() ==> !(#[trigger] stores[i]).handles.contains_key(ids[i]),
        forall|i: int|
            0 <= i < ids.len() ==> #[trigger] stores[i + 1] == registered(stores[i], ids[i], ts[i]),
    ensures
        forall|i: int, j: int| 0 <= i < j < ids.len() ==> ids[i] != ids[j],
        forall|i: int|
            0 <= i < ids.len() ==> (#[trigger] stores[ids.len() as int]).handles.contains_key(ids[i]),
{
    assert forall|i: int, j: int| 0 <= i < j <= ids.len() implies #[trigger] stores[j].handles.contains_key(
        #[trigger] ids[i],
    ) by {
        lemma_id_kept(stores, ids, ts, i, j);
    }
    assert forall|i: int, j: int| 0 <= i < j < ids.len() implies ids[i] != ids[j] by {
        lemma_id_kept(stores, ids, ts, i, j);
        assert(!stores[j].handles.contains_key(ids[j]));
    }
    assert forall|i: int| 0 <= i < ids.len() implies (#[trigger] stores[ids.len() as int]).handles.contains_key(
        ids[i],
    ) by {
        lemma_id_kept(stores, ids, ts, i, ids.len() as int);
    }
}

proof fn lemma_id_kept(stores: Seq<TextureStoreView>, ids: Seq<u128>, ts: Seq<Texture>, i: int, j: int)
    requires
        stores.len() == ids.len() + 1,
        ts.len() == ids.len(),
        forall|k: int|
            0 <= k < ids.len() ==> #[trigger] stores[k + 1] == registered(stores[k], ids[k], ts[k]),
        0 <= i < j <= ids.len(),
    ensures
        stores[j].handles.contains_key(ids[i]),
    decreases j - i,
{
    let k = j - 1;
    assert(stores[k + 1] == registered(stores[k], ids[k], ts[k]));
    assert(k + 1 == j);
    if j - 1 > i {
        lemma_id_kept(stores, ids, ts, i, j - 1);
    }
}

} // verus!
