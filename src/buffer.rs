//! Buffers and images bound to an allocation they own exclusively, until
//! they hand it out, exactly once, to be freed.
use vstd::prelude::*;
use ash::vk;
use gpu_allocator::vulkan::Allocation;
use std::marker::PhantomData;
use vstd::arithmetic::mul::lemma_mul_is_commutative;

verus! {

/// Why a copy into a resource's memory did not happen.
#[derive(Clone, Copy, Debug, PartialEq, Eq, Structural)]
pub enum CopyError {
    /// The resource's allocation was already handed out to be freed.
    Released,
    /// The data is longer than the resource.
    TooLarge,
    /// The memory is not host-visible, so it is not mapped, or the mapped
    /// region is shorter than the data.
    NotMapped,
}

/// Relies on gpu_allocator's `Allocation::mapped_slice_mut`: the mapped
/// memory of a host-visible allocation, `None` for any other.
#[verifier::external_body]
fn mapped_memory(allocation: &mut Allocation) -> (r: Option<&mut [u8]>) {
    allocation.mapped_slice_mut()
}

/// Overwrites the first `data.len()` bytes of `dst` with `data`, when `dst`
/// is long enough; otherwise leaves `dst` as it was and returns false.
pub fn copy_into(dst: &mut [u8], data: &[u8]) -> (r: bool)
    ensures
        r == (data@.len() <= old(dst)@.len()),
        r ==> final(dst)@ == data@ + old(dst)@.subrange(data@.len() as int, old(dst)@.len() as int),
        !r ==> final(dst)@ == old(dst)@,
{
    if data.len() > dst.len() {
        return false;
    }
    let ghost original = dst@;
    let mut i: usize = 0;
    while i < data.len()
        invariant
            i <= data@.len(),
            data@.len() <= original.len(),
            dst@.len() == original.len(),
            forall|j: int| 0 <= j < i ==> #[trigger] dst@[j] == data@[j],
            forall|j: int| i <= j < original.len() ==> #[trigger] dst@[j] == original[j],
        decreases data@.len() - i,
    {
        dst[i] = data[i];
        i = i + 1;
    }
    assert(dst@ =~= data@ + original.subrange(data@.len() as int, original.len() as int));
    true
}

/// Copies `data` to the start of the mapped memory of `allocation`. Gives
/// back the mapped bytes as they are after the copy, or `None` when the
/// memory is not mapped or shorter than `data` (and nothing was written).
fn write_mapped(allocation: &mut Allocation, data: &[u8]) -> (r: Option<Ghost<Seq<u8>>>)
    ensures
        r is Some ==> r->Some_0@.len() >= data@.len() && r->Some_0@.take(data@.len() as int)
            == data@,
{
    match mapped_memory(allocation) {
        None => None,
        Some(dst) => {
            if copy_into(dst, data) {
                let ghost after = dst@;
                proof {
                    assert(after.take(data@.len() as int) =~= data@);
                }
                Some(Ghost(after))
            } else {
                None
            }
        },
    }
}

/// A buffer of `size` elements of `T`.
pub struct GpuBuffer<T> {
    buffer: vk::Buffer,
    allocation: Option<Allocation>,
    size: u64,
    written: Ghost<Seq<u8>>,
    phantom: PhantomData<T>,
}

/// The abstract state of a buffer or an image.
pub struct ResourceView {
    /// The allocation still owned; `None` once handed out.
    pub allocation: Option<Allocation>,
    /// Number of elements (of a buffer), or 0 (of an image).
    pub size: nat,
    /// The mapped bytes as the last successful copy left them (empty before
    /// any copy).
    pub mapped: Seq<u8>,
}

impl<T> View for GpuBuffer<T> {
    type V = ResourceView;

    closed spec fn view(&self) -> ResourceView {
        ResourceView { allocation: self.allocation, size: self.size as nat, mapped: self.written@ }
    }
}

impl<T> GpuBuffer<T> {
    pub closed spec fn spec_handle(&self) -> vk::Buffer {
        self.buffer
    }

    /// Bytes taken by `size` elements of `T`.
    pub open spec fn bytes_for(size: nat) -> nat {
        size * vstd::layout::size_of::<T>()
    }

    /// Number of bytes a buffer of `size` elements needs, if it fits in
    /// 64 bits.
    pub fn byte_size(size: u64) -> (r: Option<u64>)
        ensures
            r == if Self::bytes_for(size as nat) <= u64::MAX {
                Some(Self::bytes_for(size as nat) as u64)
            } else {
                None::<u64>
            },
    {
        let elem: usize = core::mem::size_of::<T>();
        proof {
            lemma_mul_is_commutative(elem as int, size as int);
        }
        (elem as u64).checked_mul(size)
    }

    /// A buffer of `size` elements bound to `allocation`.
    pub fn new(buffer: vk::Buffer, allocation: Allocation, size: u64) -> (r: GpuBuffer<T>)
        ensures
            r.spec_handle() == buffer,
            r@ == (ResourceView { allocation: Some(allocation), size: size as nat, mapped: Seq::empty() }),
    {
        GpuBuffer {
            buffer,
            allocation: Some(allocation),
            size,
            written: Ghost(Seq::empty()),
            phantom: PhantomData,
        }
    }

    /// The buffer handle.
    pub fn handle(&self) -> (r: vk::Buffer)
        ensures
            r == self.spec_handle(),
    {
        self.buffer
    }

    /// Number of elements.
    pub fn len(&self) -> (r: u64)
        ensures
            r == self@.size,
    {
        self.size
    }

    /// Copies `data` (the bytes of at most `len()` elements) to the start of
    /// the buffer's mapped memory.
    pub fn copy(&mut self, data: &[u8]) -> (r: Result<(), CopyError>)
        ensures
            final(self)@.size == old(self)@.size,
            final(self).spec_handle() == old(self).spec_handle(),
            final(self)@.allocation is Some <==> old(self)@.allocation is Some,
            r == Err::<(), CopyError>(CopyError::Released) <==> old(self)@.allocation is None,
            r == Err::<(), CopyError>(CopyError::TooLarge) <==> old(self)@.allocation is Some
                && data@.len() > Self::bytes_for(old(self)@.size),
            r is Ok ==> old(self)@.allocation is Some && data@.len() <= Self::bytes_for(
                old(self)@.size,
            ),
            r is Ok ==> final(self)@.mapped.len() >= data@.len() && final(self)@.mapped.take(
                data@.len() as int,
            ) == data@,
            r is Err ==> final(self)@.mapped == old(self)@.mapped,
    {
        let elem: usize = core::mem::size_of::<T>();
        let len: usize = data.len();
        proof {
            lemma_mul_is_commutative(elem as int, self.size as int);
        }
        let fits = match (elem as u64).checked_mul(self.size) {
            Some(cap) => (len as u64) <= cap,
            None => true,
        };
        assert(fits <==> data@.len() <= Self::bytes_for(self.size as nat));
        match &mut self.allocation {
            None => Err(CopyError::Released),
            Some(a) => {
                if !fits {
                    Err(CopyError::TooLarge)
                } else {
                    match write_mapped(a, data) {
                        Some(after) => {
                            self.written = after;
                            Ok(())
                        },
                        None => Err(CopyError::NotMapped),
                    }
                }
            },
        }
    }

    /// Hands the allocation out to be freed, exactly once: the first call
    /// returns it, every later call returns `None`.
    pub fn take_allocation(&mut self) -> (r: Option<Allocation>)
        ensures
            r == old(self)@.allocation,
            final(self)@.allocation is None,
            final(self)@.size == old(self)@.size,
            final(self)@.mapped == old(self)@.mapped,
            final(self).spec_handle() == old(self).spec_handle(),
    {
        self.allocation.take()
    }
}

/// An image bound to memory it owns.
pub struct GpuImage {
    image: vk::Image,
    allocation: Option<Allocation>,
    written: Ghost<Seq<u8>>,
}

impl View for GpuImage {
    type V = ResourceView;

    closed spec fn view(&self) -> ResourceView {
        ResourceView { allocation: self.allocation, size: 0, mapped: self.written@ }
    }
}

impl GpuImage {
    pub closed spec fn spec_handle(&self) -> vk::Image {
        self.image
    }

    /// An image bound to `allocation`.
    pub fn new(image: vk::Image, allocation: Allocation) -> (r: GpuImage)
        ensures
            r.spec_handle() == image,
            r@ == (ResourceView { allocation: Some(allocation), size: 0, mapped: Seq::empty() }),
    {
        GpuImage { image, allocation: Some(allocation), written: Ghost(Seq::empty()) }
    }

    /// The image handle.
    pub fn handle(&self) -> (r: vk::Image)
        ensures
            r == self.spec_handle(),
    {
        self.image
    }

    /// Copies `data` to the start of the image's mapped memory.
    pub fn copy(&mut self, data: &[u8]) -> (r: Result<(), CopyError>)
        ensures
            final(self).spec_handle() == old(self).spec_handle(),
            final(self)@.allocation is Some <==> old(self)@.allocation is Some,
            r == Err::<(), CopyError>(CopyError::Released) <==> old(self)@.allocation is None,
            r is Ok || r == Err::<(), CopyError>(CopyError::Released) || r == Err::<(), CopyError>(
                CopyError::NotMapped,
            ),
            r is Ok ==> final(self)@.mapped.len() >= data@.len() && final(self)@.mapped.take(
                data@.len() as int,
            ) == data@,
            r is Err ==> final(self)@.mapped == old(self)@.mapped,
    {
        match &mut self.allocation {
            None => Err(CopyError::Released),
            Some(a) => {
                match write_mapped(a, data) {
                    Some(after) => {
                        self.written = after;
                        Ok(())
                    },
                    None => Err(CopyError::NotMapped),
                }
            },
        }
    }

    /// Hands the allocation out to be freed, exactly once.
    pub fn take_allocation(&mut self) -> (r: Option<Allocation>)
        ensures
            r == old(self)@.allocation,
            final(self)@.allocation is None,
            final(self).spec_handle() == old(self).spec_handle(),
    {
        self.allocation.take()
    }
}

} // verus!
