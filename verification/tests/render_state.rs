use raytrace_core::accumulation::{dispatch_group_count, Accumulation, ParameterChange};
use raytrace_core::frame_loop::{AcquireAction, AcquireOutcome, FrameLoop, FrameStart, PresentOutcome};
use raytrace_core::refcount::{
    child_release_steps, clone_outcome, release_outcome, CloneOutcome, RefCount, ReleaseOutcome, ReleaseStep,
};

#[test]
fn accumulation_starts_and_steps() {
    let mut state = Accumulation::new(800, 600);
    assert_eq!(state.max_sample_count, 256);
    let step = state.render(800, 600, 256, false, true);
    assert!(step.change == ParameterChange::Unchanged);
    assert_eq!(step.traced_seed, Some(0));
    assert_eq!(step.image_slot, 0);
    assert_eq!(step.sample_count, 1);
    let step = state.render(800, 600, 256, false, true);
    assert_eq!(step.traced_seed, Some(1));
    assert_eq!(step.image_slot, 1);
    assert_eq!(step.sample_count, 2);
    let step = state.render(800, 600, 256, false, true);
    assert_eq!(step.image_slot, 0);
}

#[test]
fn accumulation_saturates_at_the_limit() {
    let mut state = Accumulation::new(4, 4);
    for expected in 0..3u32 {
        let step = state.render(4, 4, 3, expected == 0, true);
        assert_eq!(step.traced_seed, Some(expected));
    }
    let step = state.render(4, 4, 3, false, true);
    assert_eq!(step.traced_seed, None);
    assert_eq!(step.sample_count, 3);
}

#[test]
fn accumulation_resets_on_changes() {
    let mut state = Accumulation::new(8, 8);
    state.render(8, 8, 256, false, true);
    state.render(8, 8, 256, false, true);
    let step = state.render(8, 8, 256, true, true);
    assert!(step.change == ParameterChange::Restarted);
    assert_eq!(step.traced_seed, Some(0));
    let step = state.render(16, 8, 256, false, true);
    assert!(step.change == ParameterChange::Resized);
    assert_eq!(state.width, 16);
    assert_eq!(step.traced_seed, Some(0));
    let step = state.render(16, 8, 100, false, true);
    assert!(step.change == ParameterChange::Restarted);
    assert_eq!(state.max_sample_count, 100);
}

#[test]
fn accumulation_waits_for_the_pipeline() {
    let mut state = Accumulation::new(8, 8);
    let step = state.render(8, 8, 256, false, false);
    assert_eq!(step.traced_seed, None);
    assert_eq!(step.sample_count, 0);
}

#[test]
fn set_parameters_and_take_image_directly() {
    let mut state = Accumulation::new(2, 2);
    assert!(state.set_parameters(2, 2, 256, false) == ParameterChange::Unchanged);
    assert_eq!(state.trace_sample(true), Some(0));
    assert_eq!(state.take_image(), (0, 1));
    assert_eq!(state.take_image(), (1, 1));
}

#[test]
fn dispatch_covers_the_image() {
    assert_eq!(dispatch_group_count(0), 0);
    assert_eq!(dispatch_group_count(1), 1);
    assert_eq!(dispatch_group_count(8), 1);
    assert_eq!(dispatch_group_count(9), 2);
    assert_eq!(dispatch_group_count(800), 100);
    assert_eq!(dispatch_group_count(601), 76);
}

#[test]
fn frame_loop_cycles_and_recreates() {
    let mut frames = FrameLoop::new(3);
    assert!(frames.begin_frame(0, 600) == FrameStart::Skip);
    assert!(frames.begin_frame(800, 600) == FrameStart::Acquire);
    assert!(frames.after_acquire(AcquireOutcome::Acquired(2)) == AcquireAction::Record(2));
    frames.after_present(PresentOutcome::Optimal);
    assert_eq!(frames.current_frame, 1);
    frames.after_present(PresentOutcome::Optimal);
    frames.after_present(PresentOutcome::Suboptimal);
    assert_eq!(frames.current_frame, 0);
    assert!(frames.dirty_swapchain);
    assert!(frames.begin_frame(800, 600) == FrameStart::RecreateSwapchain);
    frames.swapchain_recreated(2);
    assert!(!frames.dirty_swapchain);
    assert_eq!(frames.frames_in_flight, 2);
    assert!(frames.after_acquire(AcquireOutcome::OutOfDate) == AcquireAction::SkipFrame);
    assert!(frames.dirty_swapchain);
    assert!(frames.after_acquire(AcquireOutcome::Failed) == AcquireAction::Fail);
}

#[test]
fn resize_marks_swapchain() {
    let mut frames = FrameLoop::new(2);
    frames.on_resized();
    assert!(frames.begin_frame(10, 10) == FrameStart::RecreateSwapchain);
    frames.after_present(PresentOutcome::OutOfDate);
    assert!(frames.dirty_swapchain);
    frames.after_present(PresentOutcome::Optimal);
    assert!(!frames.dirty_swapchain);
}

#[test]
fn refcount_destroys_on_last_release() {
    let mut rc = RefCount::new();
    assert!(rc.acquire() == CloneOutcome::Shared);
    assert!(rc.acquire() == CloneOutcome::Shared);
    assert!(rc.release() == ReleaseOutcome::Keep);
    assert!(rc.release() == ReleaseOutcome::Keep);
    assert!(rc.release() == ReleaseOutcome::Destroy);
    assert_eq!(rc.count, 0);
}

#[test]
fn refcount_outcomes_at_the_edges() {
    assert!(clone_outcome(usize::MAX / 2) == CloneOutcome::Shared);
    assert!(clone_outcome(usize::MAX / 2 + 1) == CloneOutcome::TooManyReferences);
    assert!(release_outcome(1) == ReleaseOutcome::Destroy);
    assert!(release_outcome(2) == ReleaseOutcome::Keep);
}

#[test]
fn last_release_frees_before_letting_go_of_parents() {
    assert!(child_release_steps(1) == vec![ReleaseStep::FreeChild, ReleaseStep::ReleaseParents]);
    assert!(child_release_steps(2).is_empty());
    assert!(child_release_steps(7).is_empty());
}

#[test]
fn parent_is_destroyed_only_after_its_child_is_freed() {
    // a pool held by its creator, and a command buffer created from it
    let mut pool = RefCount::new();
    assert!(pool.acquire() == CloneOutcome::Shared);
    let mut buffer = RefCount::new();
    assert!(buffer.acquire() == CloneOutcome::Shared);
    let mut log: Vec<&str> = Vec::new();
    // the creator drops the pool first: the buffer still holds it
    assert!(pool.release() == ReleaseOutcome::Keep);
    for _ in 0..2 {
        let previous = buffer.count;
        assert!(buffer.release() == release_outcome(previous));
        for step in child_release_steps(previous) {
            match step {
                ReleaseStep::FreeChild => log.push("free buffer"),
                ReleaseStep::ReleaseParents => {
                    if pool.release() == ReleaseOutcome::Destroy {
                        log.push("destroy pool");
                    }
                }
            }
        }
    }
    assert_eq!(log, vec!["free buffer", "destroy pool"]);
}
