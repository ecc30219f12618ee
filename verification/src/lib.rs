//! A verified physical page-frame allocator.
//!
//! Physical memory above the kernel image is divided into fixed-size frames.
//! A bitmap-backed tracker records which frames are free; allocation hands out
//! owned `FrameTracker` handles (one live handle per allocated frame), and a
//! raw contiguous-run interface serves a lower-level heap allocator that keeps
//! its own records.

pub mod bitmap;
pub mod frame;
pub mod laws;

pub use frame::{
    addr_to_frame, alloc_frames, frame_alloc, frame_to_addr, frames_alloc, free_frames,
    init_frame_allocator, is_frame_free, release_frame, FrameAllocator, FrameTracker, FRAME_SIZE,
};
