//! Meshes whose index and vertex buffers never change after upload.
use vstd::prelude::*;
use gpu_allocator::vulkan::Allocation;
use crate::buffer::GpuBuffer;

verus! {

/// An index buffer of `u32` and a vertex buffer of `V`, immutable once made.
pub struct StaticMesh<V> {
    index_buffer: GpuBuffer<u32>,
    vertex_buffer: GpuBuffer<V>,
}

impl<V> StaticMesh<V> {
    pub closed spec fn indices(&self) -> GpuBuffer<u32> {
        self.index_buffer
    }

    pub closed spec fn vertices(&self) -> GpuBuffer<V> {
        self.vertex_buffer
    }

    /// A mesh of filled index and vertex buffers.
    pub fn new(index_buffer: GpuBuffer<u32>, vertex_buffer: GpuBuffer<V>) -> (r: StaticMesh<V>)
        ensures
            r.indices() == index_buffer,
            r.vertices() == vertex_buffer,
    {
        StaticMesh { index_buffer, vertex_buffer }
    }

    /// The index buffer, bound before drawing.
    pub fn index_buffer(&self) -> (r: &GpuBuffer<u32>)
        ensures
            *r == self.indices(),
    {
        &self.index_buffer
    }

    /// The vertex buffer, bound before drawing.
    pub fn vertex_buffer(&self) -> (r: &GpuBuffer<V>)
        ensures
            *r == self.vertices(),
    {
        &self.vertex_buffer
    }

    /// Number of indices to draw.
    pub fn index_count(&self) -> (r: u64)
        ensures
            r == self.indices()@.size,
    {
        self.index_buffer.len()
    }

    /// Hands out the allocations of both buffers, index buffer first, to be
    /// freed; a second call hands out nothing.
    pub fn take_allocations(&mut self) -> (r: (Option<Allocation>, Option<Allocation>))
        ensures
            r.0 == old(self).indices()@.allocation,
            r.1 == old(self).vertices()@.allocation,
            final(self).indices()@.allocation is None,
            final(self).vertices()@.allocation is None,
            final(self).indices()@.size == old(self).indices()@.size,
            final(self).vertices()@.size == old(self).vertices()@.size,
    {
        let i = self.index_buffer.take_allocation();
        let v = self.vertex_buffer.take_allocation();
        (i, v)
    }
}

} // verus!
