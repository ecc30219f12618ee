use frame_allocator::{
    addr_to_frame, alloc_frames, frame_alloc, frame_to_addr, frames_alloc, free_frames,
    init_frame_allocator, is_frame_free, release_frame, FrameAllocator, FrameTracker, FRAME_SIZE,
};

const IMAGE_END: usize = 0x8020_0000;
const MEMORY_END: usize = 0x8080_0000;

fn small_tracker(frames: usize) -> FrameAllocator {
    init_frame_allocator(FRAME_SIZE * 10, FRAME_SIZE * (10 + frames))
}

#[test]
fn scenario_boot_memory() {
    let mut a = init_frame_allocator(IMAGE_END, MEMORY_END);
    assert_eq!(a.base, IMAGE_END);
    assert_eq!(a.frame_count, 0x600);
    assert_eq!(a.frame_count, 1536);

    let mut handles: Vec<FrameTracker> = Vec::new();
    for expected in 0..5usize {
        let f = frame_alloc(&mut a).unwrap();
        assert_eq!(f.id, expected);
        assert_eq!(f.start(a.base), IMAGE_END + expected * FRAME_SIZE);
        handles.push(f);
    }
    assert_eq!(handles[0].start(a.base), 0x8020_0000);
    assert_eq!(handles[1].start(a.base), 0x8020_1000);
    assert_eq!(handles[2].start(a.base), 0x8020_2000);
    assert_eq!(handles[3].start(a.base), 0x8020_3000);
    assert_eq!(handles[4].start(a.base), 0x8020_4000);

    for f in handles.drain(..) {
        assert!(release_frame(&mut a, f));
    }
    for expected in 0..5usize {
        let f = frame_alloc(&mut a).unwrap();
        assert_eq!(f.id, expected);
        handles.push(f);
    }
}

#[test]
fn addr_round_trip() {
    for index in [0usize, 1, 2, 5, 0x5ff] {
        let addr = frame_to_addr(index, IMAGE_END);
        assert_eq!(addr, IMAGE_END + index * FRAME_SIZE);
        let f = addr_to_frame(addr, IMAGE_END);
        assert_eq!(f.id, index);
        assert_eq!(frame_to_addr(f.id, IMAGE_END), addr);
    }
}

#[test]
fn tracker_start_end() {
    let f = FrameTracker::new(3);
    assert_eq!(f.start(IMAGE_END), IMAGE_END + 3 * FRAME_SIZE);
    assert_eq!(f.end(IMAGE_END), IMAGE_END + 4 * FRAME_SIZE);
}

#[test]
fn alloc_release_restores_free_count() {
    let mut a = small_tracker(4);
    let f0 = frame_alloc(&mut a).unwrap();
    let f1 = frame_alloc(&mut a).unwrap();
    let f2 = frame_alloc(&mut a).unwrap();
    assert!(!is_frame_free(&a, f0.id));
    assert!(!is_frame_free(&a, f1.id));
    assert!(!is_frame_free(&a, f2.id));
    assert!(release_frame(&mut a, f2));
    assert!(release_frame(&mut a, f0));
    assert!(release_frame(&mut a, f1));
    for id in 0..4usize {
        assert!(is_frame_free(&a, id));
    }
}

#[test]
fn handles_are_unique() {
    let mut a = small_tracker(6);
    let mut ids: Vec<usize> = Vec::new();
    while let Some(f) = frame_alloc(&mut a) {
        ids.push(f.id);
    }
    assert_eq!(ids.len(), 6);
    for i in 0..ids.len() {
        for j in 0..i {
            assert_ne!(ids[i], ids[j]);
        }
    }
}

#[test]
fn bulk_alloc_collects_distinct_handles() {
    let mut a = small_tracker(5);
    let v = frames_alloc(&mut a, 3).unwrap();
    assert_eq!(v.len(), 3);
    for i in 0..v.len() {
        assert_eq!(v[i].id, i);
        assert!(!is_frame_free(&a, v[i].id));
        for j in 0..i {
            assert!(v[j].id < v[i].id);
        }
    }
    assert!(is_frame_free(&a, 3));
    assert!(is_frame_free(&a, 4));
}

#[test]
fn bulk_alloc_all_or_nothing() {
    let mut a = small_tracker(2);
    assert!(frames_alloc(&mut a, 3).is_none());
    assert!(is_frame_free(&a, 0));
    assert!(is_frame_free(&a, 1));
    let v = frames_alloc(&mut a, 2).unwrap();
    assert_eq!(v.len(), 2);
    assert!(!is_frame_free(&a, 0));
    assert!(!is_frame_free(&a, 1));
}

#[test]
fn bulk_alloc_after_partial_use() {
    let mut a = small_tracker(3);
    let f = frame_alloc(&mut a).unwrap();
    assert_eq!(f.id, 0);
    assert!(frames_alloc(&mut a, 3).is_none());
    assert!(!is_frame_free(&a, 0));
    assert!(is_frame_free(&a, 1));
    assert!(is_frame_free(&a, 2));
}

#[test]
fn contiguous_round_trip() {
    let mut a = small_tracker(8);
    let addr = alloc_frames(&mut a, 4).unwrap();
    assert_eq!(addr, a.base);
    for id in 0..4usize {
        assert!(!is_frame_free(&a, id));
    }
    for id in 4..8usize {
        assert!(is_frame_free(&a, id));
    }
    free_frames(&mut a, addr, 4);
    for id in 0..8usize {
        assert!(is_frame_free(&a, id));
    }
}

#[test]
fn contiguous_skips_allocated_prefix() {
    let mut a = small_tracker(8);
    let f = frame_alloc(&mut a).unwrap();
    assert_eq!(f.id, 0);
    let addr = alloc_frames(&mut a, 3).unwrap();
    assert_eq!(addr, a.base + FRAME_SIZE);
    assert_eq!(addr_to_frame(addr, a.base).id, 1);
    assert!(!is_frame_free(&a, 1));
    assert!(!is_frame_free(&a, 2));
    assert!(!is_frame_free(&a, 3));
    assert!(is_frame_free(&a, 4));
}

#[test]
fn contiguous_exhaustion_returns_none() {
    let mut a = small_tracker(4);
    assert!(alloc_frames(&mut a, 5).is_none());
    for id in 0..4usize {
        assert!(is_frame_free(&a, id));
    }
    let f = frame_alloc(&mut a).unwrap();
    assert!(!is_frame_free(&a, f.id));
    assert!(alloc_frames(&mut a, 4).is_none());
}

#[test]
fn double_free_is_detected() {
    let mut a = small_tracker(3);
    let f = frame_alloc(&mut a).unwrap();
    let id = f.id;
    assert!(release_frame(&mut a, f));
    assert!(is_frame_free(&a, id));
    let forged = FrameTracker::new(id);
    assert!(!release_frame(&mut a, forged));
    assert!(is_frame_free(&a, id));
    assert!(is_frame_free(&a, 1));
    assert!(is_frame_free(&a, 2));
}

#[test]
fn exhaustion_returns_none() {
    let mut a = small_tracker(2);
    assert!(frame_alloc(&mut a).is_some());
    assert!(frame_alloc(&mut a).is_some());
    assert!(frame_alloc(&mut a).is_none());
}

#[test]
fn empty_region_has_no_frames() {
    let mut a = init_frame_allocator(IMAGE_END, IMAGE_END);
    assert_eq!(a.frame_count, 0);
    assert!(frame_alloc(&mut a).is_none());
    assert!(frames_alloc(&mut a, 1).is_none());
}

#[test]
fn unaligned_image_end_counts_whole_frames() {
    let image_end = FRAME_SIZE * 10 + 123;
    let memory_end = FRAME_SIZE * 14;
    let a = init_frame_allocator(image_end, memory_end);
    assert_eq!(a.frame_count, 14 - 10);
    assert_eq!(a.base, image_end);
}
