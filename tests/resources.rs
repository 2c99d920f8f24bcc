use ash::vk::{self, Handle};
use gpu_allocator::vulkan::Allocation;
use gpu_allocator::AllocationError;
use juryrig::buffer::{copy_into, CopyError, GpuBuffer, GpuImage};
use juryrig::debug::{
    layer_names, log_level_for, validation_layer_name, SEVERITY_ERROR, SEVERITY_INFO,
    SEVERITY_VERBOSE, SEVERITY_WARNING,
};
use juryrig::error::{InitError, RuntimeError};
use juryrig::mesh::StaticMesh;

#[test]
fn byte_size_counts_elements() {
    assert_eq!(GpuBuffer::<u32>::byte_size(36), Some(144));
    assert_eq!(GpuBuffer::<[u8; 4]>::byte_size(0), Some(0));
    assert_eq!(GpuBuffer::<u64>::byte_size(u64::MAX), None);
}

#[test]
fn buffer_copy_checks_ownership_and_size() {
    let mut b: GpuBuffer<u32> = GpuBuffer::new(vk::Buffer::from_raw(7), Allocation::default(), 4);
    assert_eq!(b.len(), 4);
    assert_eq!(b.handle(), vk::Buffer::from_raw(7));
    assert_eq!(b.copy(&[0u8; 17]), Err(CopyError::TooLarge));
    // A null allocation is not host-visible.
    assert_eq!(b.copy(&[0u8; 16]), Err(CopyError::NotMapped));
    assert!(b.take_allocation().is_some());
    assert!(b.take_allocation().is_none());
    assert_eq!(b.copy(&[0u8; 4]), Err(CopyError::Released));
}

#[test]
fn image_allocation_is_taken_once() {
    let mut i = GpuImage::new(vk::Image::from_raw(3), Allocation::default());
    assert_eq!(i.handle(), vk::Image::from_raw(3));
    assert_eq!(i.copy(&[1u8, 2, 3]), Err(CopyError::NotMapped));
    assert!(i.take_allocation().is_some());
    assert!(i.take_allocation().is_none());
    assert_eq!(i.copy(&[1u8]), Err(CopyError::Released));
}

#[test]
fn validation_severity_mapping() {
    assert_eq!(log_level_for(SEVERITY_ERROR), log::Level::Error);
    assert_eq!(log_level_for(SEVERITY_WARNING), log::Level::Warn);
    assert_eq!(log_level_for(SEVERITY_INFO), log::Level::Debug);
    assert_eq!(log_level_for(SEVERITY_VERBOSE), log::Level::Trace);
    assert_eq!(log_level_for(0x1100), log::Level::Info);
    assert_eq!(
        log_level_for(vk::DebugUtilsMessageSeverityFlagsEXT::WARNING.as_raw()),
        log::Level::Warn
    );
}

#[test]
fn severity_bits_match_vulkan() {
    use_flags(vk::DebugUtilsMessageSeverityFlagsEXT::ERROR, SEVERITY_ERROR);
    use_flags(vk::DebugUtilsMessageSeverityFlagsEXT::WARNING, SEVERITY_WARNING);
    use_flags(vk::DebugUtilsMessageSeverityFlagsEXT::INFO, SEVERITY_INFO);
    use_flags(vk::DebugUtilsMessageSeverityFlagsEXT::VERBOSE, SEVERITY_VERBOSE);
}

fn use_flags(flags: vk::DebugUtilsMessageSeverityFlagsEXT, bits: u32) {
    assert_eq!(flags.as_raw(), bits);
}

#[test]
fn layer_names_hold_validation() {
    assert_eq!(validation_layer_name(), "VK_LAYER_KHRONOS_validation");
    assert_eq!(layer_names(), vec!["VK_LAYER_KHRONOS_validation"]);
}

#[test]
fn errors_convert() {
    assert!(matches!(
        InitError::from(vk::Result::ERROR_INITIALIZATION_FAILED),
        InitError::VKErr(vk::Result::ERROR_INITIALIZATION_FAILED)
    ));
    assert!(matches!(
        InitError::from(AllocationError::OutOfMemory),
        InitError::AllocationError(AllocationError::OutOfMemory)
    ));
    assert!(matches!(
        RuntimeError::from(vk::Result::ERROR_DEVICE_LOST),
        RuntimeError::VKErr(vk::Result::ERROR_DEVICE_LOST)
    ));
    assert!(matches!(
        RuntimeError::from(AllocationError::OutOfMemory),
        RuntimeError::AllocationError(AllocationError::OutOfMemory)
    ));
}

#[test]
fn static_mesh_counts_indices_and_releases_both_buffers() {
    let index: GpuBuffer<u32> = GpuBuffer::new(vk::Buffer::from_raw(1), Allocation::default(), 36);
    let vertex: GpuBuffer<[f32; 8]> = GpuBuffer::new(vk::Buffer::from_raw(2), Allocation::default(), 24);
    let mut mesh = StaticMesh::new(index, vertex);
    assert_eq!(mesh.index_count(), 36);
    assert_eq!(mesh.vertex_buffer().len(), 24);
    assert_eq!(mesh.index_buffer().handle(), vk::Buffer::from_raw(1));
    let (i, v) = mesh.take_allocations();
    assert!(i.is_some() && v.is_some());
    let (i, v) = mesh.take_allocations();
    assert!(i.is_none() && v.is_none());
}

#[test]
fn copy_into_overwrites_a_prefix() {
    let mut dst = [9u8; 6];
    assert!(copy_into(&mut dst, &[1, 2, 3]));
    assert_eq!(dst, [1, 2, 3, 9, 9, 9]);
    assert!(copy_into(&mut dst, &[4, 5, 6, 7, 8, 0]));
    assert_eq!(dst, [4, 5, 6, 7, 8, 0]);
    assert!(!copy_into(&mut dst, &[1; 7]));
    assert_eq!(dst, [4, 5, 6, 7, 8, 0]);
    assert!(copy_into(&mut dst, &[]));
    assert_eq!(dst, [4, 5, 6, 7, 8, 0]);
}
