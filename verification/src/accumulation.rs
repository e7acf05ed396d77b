use vstd::prelude::*;

verus! {

/// The image a render step hands to the viewer: a view of the tonemapped
/// image, the sampler to read it with, and how many samples it holds.
pub struct NextImage<V, S> {
    pub image_view: V,
    pub sampler: S,
    pub sample_count: u32,
}

/// Number of sample images the renderer alternates between.
pub const IMAGE_SLOTS: usize = 2;

/// Side of the square workgroup of the tonemapping compute shader.
pub const WORKGROUP_SIZE: u32 = 8;

/// What new parameters ask of the renderer.
#[derive(PartialEq, Eq, Structural)]
pub enum ParameterChange {
    /// The size changed: the images are created again and accumulation restarts.
    Resized,
    /// Something else changed: the accumulated samples are cleared.
    Restarted,
    /// Nothing changed.
    Unchanged,
}

/// What one render step does: how the parameters changed, the seed of the
/// sample traced (if one was), and the image slot handed out with its sample count.
pub struct RenderStep {
    pub change: ParameterChange,
    pub traced_seed: Option<u32>,
    pub image_slot: usize,
    pub sample_count: u32,
}

/// The progressive-accumulation state of the renderer: the image size, how
/// many samples to accumulate, how many are accumulated, and which of the two
/// output images is handed out next.
pub struct Accumulation {
    pub width: u32,
    pub height: u32,
    pub max_sample_count: u32,
    pub sample_count: u32,
    pub current_image_index: usize,
}

impl Accumulation {
    /// No more samples than asked for, and a valid image slot.
    pub open spec fn wf(self) -> bool {
        self.sample_count <= self.max_sample_count && self.current_image_index < IMAGE_SLOTS
    }

    /// The state after new parameters: a new size resizes, another change
    /// restarts, both clearing the samples.
    pub open spec fn after_parameters(
        self,
        width: u32,
        height: u32,
        max_sample_count: u32,
        view_changed: bool,
    ) -> (Accumulation, ParameterChange) {
        if self.width != width || self.height != height {
            (
                Accumulation { width, height, max_sample_count, sample_count: 0, ..self },
                ParameterChange::Resized,
            )
        } else if self.max_sample_count != max_sample_count || view_changed {
            (Accumulation { max_sample_count, sample_count: 0, ..self }, ParameterChange::Restarted)
        } else {
            (self, ParameterChange::Unchanged)
        }
    }

    /// A sample is traced while fewer than the maximum are accumulated and the
    /// pipeline is ready; its seed is the number accumulated before it.
    pub open spec fn after_trace(self, pipeline_ready: bool) -> (Accumulation, Option<u32>) {
        if self.sample_count < self.max_sample_count && pipeline_ready {
            (Accumulation { sample_count: (self.sample_count + 1) as u32, ..self }, Some(self.sample_count))
        } else {
            (self, None)
        }
    }

    /// Handing out an image moves to the other image slot.
    pub open spec fn after_take(self) -> Accumulation {
        Accumulation { current_image_index: ((self.current_image_index + 1) % IMAGE_SLOTS as int) as usize, ..self }
    }

    /// A renderer for a `width` x `height` image that accumulates up to 256 samples.
    pub fn new(width: u32, height: u32) -> (state: Self)
        ensures
            state == (Accumulation {
                width,
                height,
                max_sample_count: 256,
                sample_count: 0,
                current_image_index: 0,
            }),
            state.wf(),
    {
        Accumulation { width, height, max_sample_count: 256, sample_count: 0, current_image_index: 0 }
    }

    /// Takes new parameters; `view_changed` says whether anything besides the
    /// size and the sample limit (camera, tone mapping, ...) differs.
    pub fn set_parameters(&mut self, width: u32, height: u32, max_sample_count: u32, view_changed: bool) -> (change: ParameterChange)
        ensures
            (*final(self), change) == old(self).after_parameters(
                width,
                height,
                max_sample_count,
                view_changed,
            ),
            (width != old(self).width || height != old(self).height) ==> change == ParameterChange::Resized
                && final(self).width == width && final(self).height == height && final(self).sample_count == 0,
    {
        if self.width != width || self.height != height {
            self.width = width;
            self.height = height;
            self.max_sample_count = max_sample_count;
            self.sample_count = 0;
            ParameterChange::Resized
        } else if self.max_sample_count != max_sample_count || view_changed {
            self.max_sample_count = max_sample_count;
            self.sample_count = 0;
            ParameterChange::Restarted
        } else {
            ParameterChange::Unchanged
        }
    }

    /// Decides whether to trace one more sample; returns its seed when it does.
    pub fn trace_sample(&mut self, pipeline_ready: bool) -> (seed: Option<u32>)
        ensures
            (*final(self), seed) == old(self).after_trace(pipeline_ready),
    {
        if self.sample_count >= self.max_sample_count {
            return None;
        }
        if !pipeline_ready {
            return None;
        }
        let seed = self.sample_count;
        self.sample_count = self.sample_count + 1;
        Some(seed)
    }

    /// The image slot to tonemap into and hand out, with the sample count it
    /// holds; the next call uses the other slot.
    pub fn take_image(&mut self) -> (taken: (usize, u32))
        requires
            old(self).current_image_index < IMAGE_SLOTS,
        ensures
            taken == (old(self).current_image_index, old(self).sample_count),
            *final(self) == old(self).after_take(),
    {
        let slot = self.current_image_index;
        self.current_image_index = (self.current_image_index + 1) % IMAGE_SLOTS;
        (slot, self.sample_count)
    }

    /// One frame: new parameters, possibly one more sample, and the next image.
    pub fn render(&mut self, width: u32, height: u32, max_sample_count: u32, view_changed: bool, pipeline_ready: bool) -> (step: RenderStep)
        requires
            old(self).current_image_index < IMAGE_SLOTS,
        ensures
            ({
                let (s1, change) = old(self).after_parameters(width, height, max_sample_count, view_changed);
                let (s2, seed) = s1.after_trace(pipeline_ready);
                &&& step.change == change
                &&& step.traced_seed == seed
                &&& step.image_slot == s2.current_image_index
                &&& step.sample_count == s2.sample_count
                &&& *final(self) == s2.after_take()
            }),
    {
        let change = self.set_parameters(width, height, max_sample_count, view_changed);
        let traced_seed = self.trace_sample(pipeline_ready);
        let (image_slot, sample_count) = self.take_image();
        RenderStep { change, traced_seed, image_slot, sample_count }
    }
}

/// Number of workgroups along one side that cover `extent` pixels.
pub fn dispatch_group_count(extent: u32) -> (groups: u32)
    requires
        extent + WORKGROUP_SIZE - 1 <= u32::MAX,
    ensures
        groups == (extent + WORKGROUP_SIZE - 1) / WORKGROUP_SIZE as int,
        groups * WORKGROUP_SIZE >= extent,
        groups * WORKGROUP_SIZE < extent + WORKGROUP_SIZE,
{
    (extent + 7) / 8
}

/// A render step keeps the state well formed: never more samples than the
/// limit, and a valid image slot.
pub proof fn lemma_render_keeps_wf(
    state: Accumulation,
    width: u32,
    height: u32,
    max_sample_count: u32,
    view_changed: bool,
    pipeline_ready: bool,
)
    requires
        state.wf(),
    ensures
        ({
            let (s1, _) = state.after_parameters(width, height, max_sample_count, view_changed);
            let (s2, _) = s1.after_trace(pipeline_ready);
            &&& s1.wf()
            &&& s2.wf()
            &&& s2.after_take().wf()
        }),
{
}

/// After any change of parameters the first sample traced has seed 0: the
/// accumulation starts over.
pub proof fn lemma_change_restarts_accumulation(
    state: Accumulation,
    width: u32,
    height: u32,
    max_sample_count: u32,
    view_changed: bool,
    pipeline_ready: bool,
)
    ensures
        ({
            let (s1, change) = state.after_parameters(width, height, max_sample_count, view_changed);
            let (s2, seed) = s1.after_trace(pipeline_ready);
            &&& change != ParameterChange::Unchanged ==> s1.sample_count == 0
            &&& change != ParameterChange::Unchanged ==> (seed is Some ==> seed == Some(0u32))
            &&& change == ParameterChange::Unchanged <==> (width == state.width && height
                == state.height && max_sample_count == state.max_sample_count && !view_changed)
        }),
{
}

/// With unchanged parameters and a ready pipeline, each render step traces
/// the next seed until the limit is reached, and none after it.
pub proof fn lemma_steady_accumulation(state: Accumulation)
    requires
        state.wf(),
    ensures
        ({
            let (s1, change) = state.after_parameters(
                state.width,
                state.height,
                state.max_sample_count,
                false,
            );
            let (s2, seed) = s1.after_trace(true);
            &&& change == ParameterChange::Unchanged
            &&& state.sample_count < state.max_sample_count ==> seed == Some(state.sample_count)
                && s2.sample_count == state.sample_count + 1
            &&& state.sample_count == state.max_sample_count ==> seed is None && s2.sample_count
                == state.sample_count
        }),
{
}

/// Two image hand-outs in a row come back to the same slot, the one between
/// being the other slot.
pub proof fn lemma_image_slots_alternate(state: Accumulation)
    requires
        state.wf(),
    ensures
        state.after_take().current_image_index != state.current_image_index,
        state.after_take().after_take().current_image_index == state.current_image_index,
{
}


/// New parameters: a change of either dimension is a resize that records the
/// new size and limit and clears the samples; with the size unchanged, a new
/// limit or view restarts (clearing the samples, keeping the size); otherwise
/// nothing changes. The image slot is never touched.
pub proof fn lemma_parameters_cases(
    state: Accumulation,
    width: u32,
    height: u32,
    max_sample_count: u32,
    view_changed: bool,
)
    ensures
        ({
            let (next, change) = state.after_parameters(width, height, max_sample_count, view_changed);
            &&& next.current_image_index == state.current_image_index
            &&& (width != state.width || height != state.height) ==> {
                &&& change == ParameterChange::Resized
                &&& next.width == width && next.height == height
                &&& next.max_sample_count == max_sample_count
                &&& next.sample_count == 0
            }
            &&& (width == state.width && height == state.height && (max_sample_count
                != state.max_sample_count || view_changed)) ==> {
                &&& change == ParameterChange::Restarted
                &&& next.width == state.width && next.height == state.height
                &&& next.max_sample_count == max_sample_count
                &&& next.sample_count == 0
            }
            &&& (width == state.width && height == state.height && max_sample_count
                == state.max_sample_count && !view_changed) ==> {
                &&& change == ParameterChange::Unchanged
                &&& next == state
            }
        }),
{
}
} // verus!
