use juryrig::frames::{FrameError, FramePhase, FrameSync, FrameTarget};

#[test]
fn current_image_cycles_with_period_n() {
    let mut sync = FrameSync::new(3);
    let mut seen = vec![];
    for _ in 0..7 {
        let slot = sync.next_slot().unwrap();
        assert_eq!(slot, sync.current_image());
        seen.push(slot);
        sync.acquired(0).unwrap();
        sync.fence_signaled().unwrap();
        sync.submitted().unwrap();
    }
    assert_eq!(seen, vec![1, 2, 0, 1, 2, 0, 1]);
}

#[test]
fn ten_frames_never_record_before_fence() {
    let n = 3;
    let mut sync = FrameSync::new(n);
    // The presentation engine hands images back in its own order.
    let images = [2u32, 0, 1, 1, 2, 0, 0, 1, 2, 2];
    for (frame, &img) in images.iter().enumerate() {
        let slot = sync.next_slot().unwrap();
        assert_eq!(slot, (frame + 1) % n);
        assert_eq!(sync.recording_target(), Err(FrameError::OutOfOrder));
        sync.acquired(img).unwrap();
        assert_eq!(sync.phase(), FramePhase::Acquired(img));
        // Not yet observed: neither recording nor submission is allowed.
        assert_eq!(sync.recording_target(), Err(FrameError::OutOfOrder));
        assert_eq!(sync.submitted(), Err(FrameError::OutOfOrder));
        if frame >= n {
            assert!(sync.is_in_flight(slot));
        }
        sync.fence_signaled().unwrap();
        assert!(!sync.is_in_flight(slot));
        let target = sync.recording_target().unwrap();
        assert_eq!(target, FrameTarget { slot, image_index: img });
        assert_eq!(sync.submitted(), Ok(target));
        assert!(sync.is_in_flight(slot));
        assert_eq!(sync.phase(), FramePhase::Idle);
    }
}

#[test]
fn out_of_order_steps_are_refused() {
    let mut sync = FrameSync::new(2);
    assert_eq!(sync.size(), 2);
    assert_eq!(sync.acquired(0), Err(FrameError::OutOfOrder));
    assert_eq!(sync.fence_signaled(), Err(FrameError::OutOfOrder));
    assert_eq!(sync.submitted(), Err(FrameError::OutOfOrder));
    assert_eq!(sync.next_slot(), Ok(1));
    assert_eq!(sync.next_slot(), Err(FrameError::OutOfOrder));
    assert_eq!(sync.acquired(2), Err(FrameError::BadImageIndex));
    assert_eq!(sync.phase(), FramePhase::Acquiring);
    assert_eq!(sync.acquired(1), Ok(()));
    assert_eq!(sync.acquired(1), Err(FrameError::OutOfOrder));
}

#[test]
fn single_image_swapchain() {
    let mut sync = FrameSync::new(1);
    for _ in 0..3 {
        assert_eq!(sync.next_slot(), Ok(0));
        sync.acquired(0).unwrap();
        sync.fence_signaled().unwrap();
        sync.submitted().unwrap();
    }
}

#[test]
fn failed_acquisition_is_abandoned() {
    let mut sync = FrameSync::new(3);
    assert_eq!(sync.abandon(), Err(FrameError::OutOfOrder));
    let slot = sync.next_slot().unwrap();
    assert_eq!(sync.abandon(), Ok(()));
    assert_eq!(sync.phase(), FramePhase::Idle);
    assert_eq!(sync.current_image(), slot);
    assert_eq!(sync.next_slot(), Ok(2));
    sync.acquired(1).unwrap();
    assert_eq!(sync.abandon(), Ok(()));
    assert_eq!(sync.next_slot(), Ok(0));
    sync.acquired(0).unwrap();
    sync.fence_signaled().unwrap();
    // The fence was reset: the frame must go out.
    assert_eq!(sync.abandon(), Err(FrameError::OutOfOrder));
    assert!(sync.submitted().is_ok());
}
