//! Error types of initialisation and of per-frame work.
use vstd::prelude::*;
use ash::vk;
use gpu_allocator::AllocationError;

verus! {

/// A result code of the Vulkan driver, carried through unchanged.
#[verifier::external_type_specification]
#[verifier::external_body]
pub struct ExVkResult(vk::Result);

/// The loader library could not be opened or lacks an entry point.
#[verifier::external_type_specification]
#[verifier::external_body]
pub struct ExLoadingError(ash::LoadingError);

/// A failure of the GPU memory allocator (out of memory and the like).
#[verifier::external_type_specification]
#[verifier::external_body]
pub struct ExAllocationError(AllocationError);

/// Failures while the rendering context is set up; all of them are fatal.
#[derive(Debug)]
pub enum InitError {
    /// An error propagated directly from Vulkan.
    VKErr(vk::Result),
    /// The Vulkan loader could not be used.
    LoadingError(ash::LoadingError),
    /// No physical device or queue family fits the renderer's needs.
    DeviceSelectionError(&'static str),
    /// The allocator failed during setup.
    AllocationError(AllocationError),
}

/// Failures of work done after setup; the caller may retry or skip.
#[derive(Debug)]
pub enum RuntimeError {
    /// An error propagated directly from Vulkan.
    VKErr(vk::Result),
    /// The allocator failed, e.g. out of memory while registering a texture.
    AllocationError(AllocationError),
}

impl From<vk::Result> for InitError {
    fn from(value: vk::Result) -> Self {
        InitError::VKErr(value)
    }
}

impl vstd::std_specs::convert::FromSpecImpl<vk::Result> for InitError {
    open spec fn obeys_from_spec() -> bool {
        true
    }

    open spec fn from_spec(v: vk::Result) -> Self {
        InitError::VKErr(v)
    }
}

impl From<ash::LoadingError> for InitError {
    fn from(value: ash::LoadingError) -> Self {
        InitError::LoadingError(value)
    }
}

impl vstd::std_specs::convert::FromSpecImpl<ash::LoadingError> for InitError {
    open spec fn obeys_from_spec() -> bool {
        true
    }

    open spec fn from_spec(v: ash::LoadingError) -> Self {
        InitError::LoadingError(v)
    }
}

impl From<AllocationError> for InitError {
    fn from(value: AllocationError) -> Self {
        InitError::AllocationError(value)
    }
}

impl vstd::std_specs::convert::FromSpecImpl<AllocationError> for InitError {
    open spec fn obeys_from_spec() -> bool {
        true
    }

    open spec fn from_spec(v: AllocationError) -> Self {
        InitError::AllocationError(v)
    }
}

impl From<vk::Result> for RuntimeError {
    fn from(value: vk::Result) -> Self {
        RuntimeError::VKErr(value)
    }
}

impl vstd::std_specs::convert::FromSpecImpl<vk::Result> for RuntimeError {
    open spec fn obeys_from_spec() -> bool {
        true
    }

    open spec fn from_spec(v: vk::Result) -> Self {
        RuntimeError::VKErr(v)
    }
}

impl From<AllocationError> for RuntimeError {
    fn from(value: AllocationError) -> Self {
        RuntimeError::AllocationError(value)
    }
}

impl vstd::std_specs::convert::FromSpecImpl<AllocationError> for RuntimeError {
    open spec fn obeys_from_spec() -> bool {
        true
    }

    open spec fn from_spec(v: AllocationError) -> Self {
        RuntimeError::AllocationError(v)
    }
}

} // verus!
