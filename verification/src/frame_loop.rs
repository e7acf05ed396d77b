use vstd::prelude::*;

verus! {

/// How a frame begins.
#[derive(PartialEq, Eq, Structural)]
pub enum FrameStart {
    /// The window has no area: nothing is drawn.
    Skip,
    /// The swapchain is out of date: create it again, then acquire an image.
    RecreateSwapchain,
    /// Acquire the next swapchain image.
    Acquire,
}

/// What acquiring a swapchain image gave.
#[derive(PartialEq, Eq, Structural)]
pub enum AcquireOutcome {
    Acquired(u32),
    OutOfDate,
    Failed,
}

/// What to do after acquiring.
#[derive(PartialEq, Eq, Structural)]
pub enum AcquireAction {
    /// Record and submit the frame into this swapchain image.
    Record(u32),
    /// Give up this frame; the swapchain is recreated on the next one.
    SkipFrame,
    /// Report the error to the caller.
    Fail,
}

/// What presenting gave.
#[derive(PartialEq, Eq, Structural)]
pub enum PresentOutcome {
    Optimal,
    Suboptimal,
    OutOfDate,
    Failed,
}

/// The frame pacing of the window's render loop: which set of per-frame
/// synchronisation objects is in use, how many there are, and whether the
/// swapchain must be created again.
pub struct FrameLoop {
    pub current_frame: usize,
    pub frames_in_flight: usize,
    pub dirty_swapchain: bool,
}

impl FrameLoop {
    pub open spec fn spec_begin(self, width: u32, height: u32) -> FrameStart {
        if width == 0 || height == 0 {
            FrameStart::Skip
        } else if self.dirty_swapchain {
            FrameStart::RecreateSwapchain
        } else {
            FrameStart::Acquire
        }
    }

    /// A loop over `frames_in_flight` frames, starting with the first, with a
    /// fresh swapchain.
    pub fn new(frames_in_flight: usize) -> (frames: Self)
        ensures
            frames == (FrameLoop { current_frame: 0, frames_in_flight, dirty_swapchain: false }),
    {
        FrameLoop { current_frame: 0, frames_in_flight, dirty_swapchain: false }
    }

    /// The window was resized: the swapchain no longer fits.
    pub fn on_resized(&mut self)
        ensures
            *final(self) == (FrameLoop { dirty_swapchain: true, ..*old(self) }),
    {
        self.dirty_swapchain = true;
    }

    /// How the next frame for a window of `width` x `height` begins.
    pub fn begin_frame(&self, width: u32, height: u32) -> (start: FrameStart)
        ensures
            start == self.spec_begin(width, height),
    {
        if width == 0 || height == 0 {
            FrameStart::Skip
        } else if self.dirty_swapchain {
            FrameStart::RecreateSwapchain
        } else {
            FrameStart::Acquire
        }
    }

    /// The swapchain was created again with `image_count` images; there is one
    /// set of per-frame objects per image.
    pub fn swapchain_recreated(&mut self, image_count: usize)
        ensures
            *final(self) == (FrameLoop {
                frames_in_flight: image_count,
                dirty_swapchain: false,
                ..*old(self)
            }),
    {
        self.frames_in_flight = image_count;
        self.dirty_swapchain = false;
    }

    /// Acting on the acquired image: an out-of-date swapchain skips the frame
    /// and marks the swapchain for recreation.
    pub fn after_acquire(&mut self, outcome: AcquireOutcome) -> (action: AcquireAction)
        ensures
            match outcome {
                AcquireOutcome::Acquired(index) => action == AcquireAction::Record(index) && *final(self)
                    == *old(self),
                AcquireOutcome::OutOfDate => action == AcquireAction::SkipFrame && *final(self) == (
                FrameLoop { dirty_swapchain: true, ..*old(self) }),
                AcquireOutcome::Failed => action == AcquireAction::Fail && *final(self) == *old(self),
            },
    {
        match outcome {
            AcquireOutcome::Acquired(index) => AcquireAction::Record(index),
            AcquireOutcome::OutOfDate => {
                self.dirty_swapchain = true;
                AcquireAction::SkipFrame
            },
            AcquireOutcome::Failed => AcquireAction::Fail,
        }
    }

    /// After presenting: a suboptimal or out-of-date swapchain is marked for
    /// recreation, and the next frame uses the next set of objects.
    pub fn after_present(&mut self, outcome: PresentOutcome)
        requires
            outcome != PresentOutcome::Failed,
            old(self).current_frame < old(self).frames_in_flight,
        ensures
            final(self).dirty_swapchain == (outcome == PresentOutcome::Suboptimal || outcome
                == PresentOutcome::OutOfDate),
            final(self).current_frame == (old(self).current_frame + 1) % (old(
                self,
            ).frames_in_flight as int),
            final(self).frames_in_flight == old(self).frames_in_flight,
    {
        self.dirty_swapchain = match outcome {
            PresentOutcome::Suboptimal => true,
            PresentOutcome::OutOfDate => true,
            _ => false,
        };
        self.current_frame = (self.current_frame + 1) % self.frames_in_flight;
    }
}

/// After any presented frame the frame index is a valid index into the
/// per-frame objects, and it cycles through all of them in order.
pub proof fn lemma_frames_cycle(current_frame: int, frames_in_flight: int)
    requires
        frames_in_flight > 0,
        0 <= current_frame,
    ensures
        0 <= (current_frame + 1) % frames_in_flight < frames_in_flight,
        current_frame < frames_in_flight ==> (current_frame + frames_in_flight) % frames_in_flight
            == current_frame,
{
    vstd::arithmetic::div_mod::lemma_mod_bound(current_frame + 1, frames_in_flight);
    if current_frame < frames_in_flight {
        vstd::arithmetic::div_mod::lemma_mod_add_multiples_vanish(current_frame, frames_in_flight);
        vstd::arithmetic::div_mod::lemma_small_mod(current_frame as nat, frames_in_flight as nat);
    }
}

/// A resize always leads to a recreation before the next image is acquired
/// from a window with an area.
pub proof fn lemma_resize_forces_recreation(frames: FrameLoop, width: u32, height: u32)
    requires
        width > 0,
        height > 0,
    ensures
        (FrameLoop { dirty_swapchain: true, ..frames }).spec_begin(width, height)
            == FrameStart::RecreateSwapchain,
{
}


/// A window without area is skipped whatever the swapchain's state; a window
/// with area recreates the swapchain exactly when it is marked, else acquires.
pub proof fn lemma_begin_frame_cases(frames: FrameLoop, width: u32, height: u32)
    ensures
        width == 0 || height == 0 ==> frames.spec_begin(width, height) == FrameStart::Skip,
        width > 0 && height > 0 && frames.dirty_swapchain ==> frames.spec_begin(width, height)
            == FrameStart::RecreateSwapchain,
        width > 0 && height > 0 && !frames.dirty_swapchain ==> frames.spec_begin(width, height)
            == FrameStart::Acquire,
{
}
} // verus!
