//! Guest resources and the table that holds them by id.
use std::collections::HashMap;
use vstd::prelude::*;

use crate::virtio_gpu::protocol::formats::VirtioGpuFormat;
use crate::virtio_gpu::protocol::requests::attach_backing::VirtioGpuMemEntry;

verus! {

pub type ResourceId = u32;

#[derive(Debug, Clone, Copy, PartialEq, Eq)]
pub enum ResourceError {
    /// The pixel storage would not fit in memory.
    SizeOverflow,
    /// A write reaches past the end of the pixel storage.
    OutOfBounds,
    /// No resource has that id.
    MissingResource,
}

/// A 2D resource: its pixels (4 bytes each), its guest backing, the region
/// last marked dirty, and the raw handles of the Vulkan objects that mirror
/// it, if any.
#[derive(Debug)]
pub struct Resource {
    pub id: u32,
    pub width: u32,
    pub height: u32,
    pub format: VirtioGpuFormat,
    pub data: Vec<u8>,
    pub backing: Vec<VirtioGpuMemEntry>,
    pub dirty: Option<[u32; 4]>,
    pub vk_buffer: Option<u64>,
    pub vk_buffer_memory: Option<u64>,
    pub vk_image: Option<u64>,
    pub vk_image_memory: Option<u64>,
}

impl Resource {
    /// A black resource of `width` x `height` pixels with no backing;
    /// `SizeOverflow` exactly when its byte size does not fit a `usize`.
    pub fn new(id: ResourceId, width: u32, height: u32, format: VirtioGpuFormat) -> (r: Result<
        Self,
        ResourceError,
    >)
        ensures
            width * height * 4 > usize::MAX ==> r matches Err(ResourceError::SizeOverflow),
            width * height * 4 <= usize::MAX ==> (r matches Ok(res) && res.id == id && res.width
                == width && res.height == height && res.format == format && res.data@ == Seq::new(
                (width * height * 4) as nat,
                |i: int| 0u8,
            ) && res.backing@.len() == 0 && res.dirty is None && res.vk_buffer is None
                && res.vk_buffer_memory is None && res.vk_image is None && res.vk_image_memory is None),
    {
        let pixels = match (width as usize).checked_mul(height as usize) {
            Some(v) => v,
            None => {
                assert(width * height * 4 > usize::MAX) by (nonlinear_arith)
                    requires
                        width * height > usize::MAX,
                ;
                return Err(ResourceError::SizeOverflow);
            },
        };
        let size = match pixels.checked_mul(4) {
            Some(v) => v,
            None => return Err(ResourceError::SizeOverflow),
        };
        let data = vec![0u8; size];
        assert(data@ =~= Seq::new((width * height * 4) as nat, |i: int| 0u8));
        Ok(
            Self {
                id,
                width,
                height,
                format,
                backing: Vec::new(),
                data,
                dirty: None,
                vk_buffer: None,
                vk_buffer_memory: None,
                vk_image: None,
                vk_image_memory: None,
            },
        )
    }

    /// Writes `data` at byte `offset` of the pixels; `OutOfBounds`, writing
    /// nothing, when it does not fit.
    pub fn write_backing(&mut self, offset: usize, data: &[u8]) -> (r: Result<(), ResourceError>)
        ensures
            offset + data@.len() > old(self).data@.len() ==> (r matches Err(
                ResourceError::OutOfBounds,
            ) && final(self).data@ == old(self).data@),
            offset + data@.len() <= old(self).data@.len() ==> r is Ok && final(self).data@ == old(self).data@.subrange(0, offset as int) + data@ + old(self).data@.subrange(
                offset + data@.len(),
                old(self).data@.len() as int,
            ),
            *final(self) == (Resource { data: final(self).data, ..*old(self) }),
    {
        let size = self.data.len();
        let end = match offset.checked_add(data.len()) {
            Some(e) => e,
            None => return Err(ResourceError::OutOfBounds),
        };
        if end > size {
            return Err(ResourceError::OutOfBounds);
        }
        crate::virtio_gpu::wire::write_at(&mut self.data, offset, data);
        Ok(())
    }

    pub fn pixels(&self) -> (r: &[u8])
        ensures
            r@ == self.data@,
    {
        self.data.as_slice()
    }

    pub fn pixels_mut(&mut self) -> (r: &mut [u8])
        ensures
            r@ == old(self).data@,
            final(r)@ == final(self).data@,
            *final(self) == (Resource { data: final(self).data, ..*old(self) }),
    {
        self.data.as_mut_slice()
    }
}

/// `HashMap::get_mut`: a mutable reference to the value of `id`, if the map
/// holds one. The contract claims that the reference is to that value and
/// that the map afterwards holds whatever was written through it.
#[verifier::external_body]
fn hash_map_get_mut(m: &mut HashMap<u32, Resource>, id: u32) -> (r: Option<&mut Resource>)
    ensures
        old(m)@.contains_key(id) ==> (r matches Some(v) && *v == old(m)@[id] && final(m)@ == old(m)@.insert(id, *final(v))),
        !old(m)@.contains_key(id) ==> r is None && final(m)@ == old(m)@,
{
    m.get_mut(&id)
}

/// The resources of the device, by id.
#[derive(Default)]
pub struct ResourceTable {
    resources: HashMap<ResourceId, Resource>,
}

impl View for ResourceTable {
    type V = Map<u32, Resource>;

    closed spec fn view(&self) -> Map<u32, Resource> {
        self.resources@
    }
}

impl ResourceTable {
    pub fn new() -> (t: Self)
        ensures
            t@ == Map::<u32, Resource>::empty(),
    {
        Self { resources: HashMap::new() }
    }

    /// Replaces the backing of resource `id`; `MissingResource` when there is
    /// none.
    pub fn attach_backing(&mut self, id: ResourceId, entries: Vec<VirtioGpuMemEntry>) -> (r: Result<
        (),
        ResourceError,
    >)
        ensures
            !old(self)@.contains_key(id) ==> (r matches Err(ResourceError::MissingResource)
                && final(self)@ == old(self)@),
            old(self)@.contains_key(id) ==> r is Ok && final(self)@ == old(self)@.insert(
                id,
                Resource { backing: entries, ..old(self)@[id] },
            ),
    {
        match hash_map_get_mut(&mut self.resources, id) {
            Some(resource) => {
                resource.backing = entries;
                Ok(())
            },
            None => Err(ResourceError::MissingResource),
        }
    }

    /// Adds `resource` under its id, unless that id is taken: an existing
    /// resource is never replaced.
    pub fn insert(&mut self, resource: Resource) -> (r: bool)
        ensures
            r == !old(self)@.contains_key(resource.id),
            r ==> final(self)@ == old(self)@.insert(resource.id, resource),
            !r ==> final(self)@ == old(self)@,
    {
        if self.resources.contains_key(&resource.id) {
            return false;
        }
        let id = resource.id;
        self.resources.insert(id, resource);
        true
    }

    pub fn get(&self, id: ResourceId) -> (r: Option<&Resource>)
        ensures
            self@.contains_key(id) ==> r == Some(&self@[id]),
            !self@.contains_key(id) ==> r is None,
    {
        self.resources.get(&id)
    }

    pub fn get_mut(&mut self, id: ResourceId) -> (r: Option<&mut Resource>)
        ensures
            old(self)@.contains_key(id) ==> (r matches Some(v) && *v == old(self)@[id] && final(self)@ == old(self)@.insert(id, *final(v))),
            !old(self)@.contains_key(id) ==> r is None && final(self)@ == old(self)@,
    {
        hash_map_get_mut(&mut self.resources, id)
    }

    pub fn remove(&mut self, id: ResourceId) -> (r: Option<Resource>)
        ensures
            old(self)@.contains_key(id) ==> r == Some(old(self)@[id]),
            !old(self)@.contains_key(id) ==> r is None,
            final(self)@ == old(self)@.remove(id),
    {
        self.resources.remove(&id)
    }

    pub fn contains(&self, id: ResourceId) -> (r: bool)
        ensures
            r == self@.contains_key(id),
    {
        self.resources.contains_key(&id)
    }

    pub fn len(&self) -> (n: usize)
        ensures
            n == self@.len(),
    {
        self.resources.len()
    }
}

} // verus!
