//! Handles of the graphics API and allocations of the GPU allocator, carried
//! through the library as opaque values.
use vstd::prelude::*;

use gpu_allocator::vulkan::Allocation;

verus! {

/// A `VkImage` handle.
#[verifier::external_type_specification]
#[verifier::external_body]
pub struct ExImage(ash::vk::Image);

/// A `VkImageView` handle.
#[verifier::external_type_specification]
#[verifier::external_body]
pub struct ExImageView(ash::vk::ImageView);

/// A `VkSampler` handle.
#[verifier::external_type_specification]
#[verifier::external_body]
pub struct ExSampler(ash::vk::Sampler);

/// A `VkBuffer` handle.
#[verifier::external_type_specification]
#[verifier::external_body]
pub struct ExBuffer(ash::vk::Buffer);

/// A `VkImageLayout` value.
#[verifier::external_type_specification]
#[verifier::external_body]
pub struct ExImageLayout(ash::vk::ImageLayout);

/// `VkDescriptorImageInfo`: a plain struct of a sampler, a view and a layout.
#[verifier::external_type_specification]
pub struct ExDescriptorImageInfo(ash::vk::DescriptorImageInfo);

/// A sub-allocation of device memory handed out by the allocator.
#[verifier::external_type_specification]
#[verifier::external_body]
pub struct ExAllocation(Allocation);

} // verus!
