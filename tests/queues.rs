use juryrig::error::InitError;
use juryrig::frames::swapchain_image_count;
use juryrig::queues::{
    choose_physical_device, QueueFamilies, QueueFamilyInfo, QueuePlan, QueueRequest, QueueSlot,
    QUEUE_COMPUTE, QUEUE_GRAPHICS, QUEUE_TRANSFER,
};

const SPARSE: u32 = 8;

fn fam(queue_count: u32, flags: u32, presentation: bool) -> QueueFamilyInfo {
    QueueFamilyInfo { queue_count, flags, presentation }
}

#[test]
fn device_context_for_800_by_600_window() {
    // A typical discrete GPU: one all-round family, a compute family, a copy engine.
    let families = vec![
        fam(16, QUEUE_GRAPHICS | QUEUE_COMPUTE | QUEUE_TRANSFER | SPARSE, true),
        fam(2, QUEUE_TRANSFER | SPARSE, false),
        fam(8, QUEUE_COMPUTE | QUEUE_TRANSFER | SPARSE, true),
    ];
    let q = QueueFamilies::new(&families).unwrap();
    assert_eq!(q.graphics, 0);
    assert!(families[q.graphics as usize].flags & QUEUE_GRAPHICS != 0);
    assert!(families[q.graphics as usize].presentation);
    assert_eq!(q.compute, 2);
    assert_eq!(q.transfer, 1);
    assert_eq!(q.graphics_queue_count, 16);
    assert_eq!(q.transfer_queue_count, 2);
    assert_eq!(q.compute_queue_count, 8);
    // Surface capabilities of the 800x600 window.
    assert_eq!(swapchain_image_count(2, 8), 3);
    assert_eq!(swapchain_image_count(4, 8), 4);
    assert_eq!(swapchain_image_count(1, 2), 2);
    // No upper bound.
    assert_eq!(swapchain_image_count(2, 0), 3);
    assert_eq!(swapchain_image_count(5, 0), 5);
    assert_eq!(swapchain_image_count(3, 3), 3);
}

#[test]
fn graphics_family_is_first_that_presents() {
    let families = vec![
        fam(1, QUEUE_GRAPHICS, false),
        fam(0, QUEUE_GRAPHICS, true),
        fam(4, QUEUE_GRAPHICS | QUEUE_TRANSFER, true),
        fam(4, QUEUE_GRAPHICS, true),
    ];
    let q = QueueFamilies::new(&families).unwrap();
    assert_eq!(q.graphics, 2);
    assert_eq!(q.compute, 2);
    assert_eq!(q.transfer, 2);
}

#[test]
fn no_graphics_family_is_an_error() {
    let families = vec![fam(2, QUEUE_COMPUTE | QUEUE_TRANSFER, true), fam(1, QUEUE_GRAPHICS, false)];
    assert!(matches!(
        QueueFamilies::new(&families),
        Err(InitError::DeviceSelectionError(_))
    ));
    assert!(matches!(QueueFamilies::new(&vec![]), Err(InitError::DeviceSelectionError(_))));
}

#[test]
fn transfer_ties_keep_graphics() {
    // Family 1 has as many non-transfer bits as the graphics family.
    let families = vec![
        fam(4, QUEUE_GRAPHICS | QUEUE_TRANSFER, true),
        fam(4, QUEUE_COMPUTE | QUEUE_TRANSFER, false),
    ];
    let q = QueueFamilies::new(&families).unwrap();
    assert_eq!(q.transfer, 0);
}

#[test]
fn transfer_takes_first_of_most_specialised() {
    let families = vec![
        fam(4, QUEUE_GRAPHICS | QUEUE_COMPUTE | QUEUE_TRANSFER, true),
        fam(2, QUEUE_COMPUTE | QUEUE_TRANSFER, false),
        fam(1, QUEUE_TRANSFER, false),
        fam(1, QUEUE_TRANSFER | SPARSE, false),
        fam(1, QUEUE_TRANSFER, false),
        fam(0, QUEUE_TRANSFER, false),
    ];
    let q = QueueFamilies::new(&families).unwrap();
    assert_eq!(q.transfer, 2);
    assert_eq!(q.compute, 0);
}

#[test]
fn compute_prefers_last_dedicated_presenting_family() {
    let families = vec![
        fam(4, QUEUE_GRAPHICS | QUEUE_COMPUTE, true),
        fam(2, QUEUE_COMPUTE, true),
        fam(2, QUEUE_COMPUTE, false),
        fam(3, QUEUE_COMPUTE | QUEUE_TRANSFER, true),
    ];
    let q = QueueFamilies::new(&families).unwrap();
    assert_eq!(q.compute, 3);
    assert_eq!(q.compute_queue_count, 3);
}

#[test]
fn plan_shares_one_family() {
    let families = vec![fam(3, QUEUE_GRAPHICS | QUEUE_COMPUTE | QUEUE_TRANSFER, true)];
    let q = QueueFamilies::new(&families).unwrap();
    let p = QueuePlan::new(&q);
    assert_eq!(p.requests, vec![QueueRequest { family: 0, count: 3 }]);
    assert_eq!(p.graphics, QueueSlot { family: 0, index: 0 });
    assert_eq!(p.compute, QueueSlot { family: 0, index: 1 });
    assert_eq!(p.transfer, QueueSlot { family: 0, index: 2 });

    let one = vec![fam(1, QUEUE_GRAPHICS | QUEUE_COMPUTE | QUEUE_TRANSFER, true)];
    let p = QueuePlan::new(&QueueFamilies::new(&one).unwrap());
    assert_eq!(p.requests, vec![QueueRequest { family: 0, count: 1 }]);
    assert_eq!(p.compute, QueueSlot { family: 0, index: 0 });
    assert_eq!(p.transfer, QueueSlot { family: 0, index: 0 });

    let two = vec![fam(2, QUEUE_GRAPHICS | QUEUE_COMPUTE | QUEUE_TRANSFER, true)];
    let p = QueuePlan::new(&QueueFamilies::new(&two).unwrap());
    assert_eq!(p.requests, vec![QueueRequest { family: 0, count: 2 }]);
    assert_eq!(p.transfer, QueueSlot { family: 0, index: 1 });
}

#[test]
fn plan_with_dedicated_families() {
    let families = vec![
        fam(16, QUEUE_GRAPHICS | QUEUE_COMPUTE | QUEUE_TRANSFER, true),
        fam(2, QUEUE_TRANSFER, false),
        fam(8, QUEUE_COMPUTE | QUEUE_TRANSFER, true),
    ];
    let p = QueuePlan::new(&QueueFamilies::new(&families).unwrap());
    assert_eq!(
        p.requests,
        vec![
            QueueRequest { family: 0, count: 1 },
            QueueRequest { family: 2, count: 1 },
            QueueRequest { family: 1, count: 1 },
        ]
    );
    assert_eq!(p.transfer, QueueSlot { family: 1, index: 0 });

    // Compute and transfer share a dedicated family with two queues.
    let shared = vec![
        fam(1, QUEUE_GRAPHICS | QUEUE_COMPUTE | QUEUE_TRANSFER, true),
        fam(2, QUEUE_COMPUTE | QUEUE_TRANSFER, true),
    ];
    let p = QueuePlan::new(&QueueFamilies::new(&shared).unwrap());
    assert_eq!(
        p.requests,
        vec![QueueRequest { family: 0, count: 1 }, QueueRequest { family: 1, count: 2 }]
    );
    assert_eq!(p.compute, QueueSlot { family: 1, index: 0 });
    assert_eq!(p.transfer, QueueSlot { family: 1, index: 1 });
}

#[test]
fn queue_flag_bits_match_vulkan() {
    assert_eq!(QUEUE_GRAPHICS, ash::vk::QueueFlags::GRAPHICS.as_raw());
    assert_eq!(QUEUE_COMPUTE, ash::vk::QueueFlags::COMPUTE.as_raw());
    assert_eq!(QUEUE_TRANSFER, ash::vk::QueueFlags::TRANSFER.as_raw());
    assert_eq!(SPARSE, ash::vk::QueueFlags::SPARSE_BINDING.as_raw());
}

#[test]
fn last_discrete_gpu_is_chosen() {
    assert_eq!(choose_physical_device(&vec![false, true, false, true, false]).unwrap(), 3);
    assert_eq!(choose_physical_device(&vec![true]).unwrap(), 0);
    assert!(matches!(
        choose_physical_device(&vec![false, false]),
        Err(InitError::DeviceSelectionError(_))
    ));
    assert!(choose_physical_device(&vec![]).is_err());
}
