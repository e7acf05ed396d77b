use vstd::prelude::*;

verus! {

/// A surface format as Vulkan codes it: the format and the color space.
#[derive(Clone, Copy, PartialEq, Eq, Structural)]
pub struct SurfaceFormat {
    pub format: i32,
    pub color_space: i32,
}

#[derive(Clone, Copy, PartialEq, Eq, Structural)]
pub struct Extent2D {
    pub width: u32,
    pub height: u32,
}

/// What the surface reports about the swapchains it accepts.
#[derive(Clone, Copy)]
pub struct SurfaceCapabilities {
    pub min_image_count: u32,
    /// 0 means no limit.
    pub max_image_count: u32,
    /// A width of `u32::MAX` means the swapchain decides the extent.
    pub current_extent: Extent2D,
    pub min_image_extent: Extent2D,
    pub max_image_extent: Extent2D,
}

/// The choices a swapchain is created with.
pub struct SwapchainConfig {
    pub surface_format: SurfaceFormat,
    pub present_mode: i32,
    pub extent: Extent2D,
    pub image_count: u32,
}

pub open spec fn clamp(value: u32, low: u32, high: u32) -> u32 {
    if value < low {
        low
    } else if value > high {
        high
    } else {
        value
    }
}

pub open spec fn spec_surface_format(formats: Seq<SurfaceFormat>, preferred: SurfaceFormat) -> SurfaceFormat {
    if formats.contains(preferred) {
        preferred
    } else {
        formats[0]
    }
}

pub open spec fn spec_present_mode(modes: Seq<i32>, preferred: i32, fallback: i32) -> i32 {
    if modes.contains(preferred) {
        preferred
    } else {
        fallback
    }
}

pub open spec fn extent_is_free(capabilities: SurfaceCapabilities) -> bool {
    capabilities.current_extent.width == u32::MAX
}

pub open spec fn spec_surface_extent(capabilities: SurfaceCapabilities, width: u32, height: u32) -> Extent2D {
    if !extent_is_free(capabilities) {
        capabilities.current_extent
    } else {
        Extent2D {
            width: clamp(width, capabilities.min_image_extent.width, capabilities.max_image_extent.width),
            height: clamp(
                height,
                capabilities.min_image_extent.height,
                capabilities.max_image_extent.height,
            ),
        }
    }
}

pub open spec fn spec_image_count(capabilities: SurfaceCapabilities) -> u32 {
    let wanted = (capabilities.min_image_count + 1) as u32;
    if capabilities.max_image_count != 0 && capabilities.max_image_count < wanted {
        capabilities.max_image_count
    } else {
        wanted
    }
}

/// A free extent has ordered bounds to clamp the window size to.
pub open spec fn extent_bounds_ordered(capabilities: SurfaceCapabilities) -> bool {
    extent_is_free(capabilities) ==> {
        &&& capabilities.min_image_extent.width <= capabilities.max_image_extent.width
        &&& capabilities.min_image_extent.height <= capabilities.max_image_extent.height
    }
}

/// The capabilities can be used: a free extent has ordered bounds and one more
/// image than the minimum can be counted.
pub open spec fn capabilities_usable(capabilities: SurfaceCapabilities) -> bool {
    &&& capabilities.min_image_count < u32::MAX
    &&& extent_bounds_ordered(capabilities)
}

/// The preferred format if the surface offers it, else the surface's first format.
pub fn choose_surface_format(formats: &Vec<SurfaceFormat>, preferred: SurfaceFormat) -> (chosen: SurfaceFormat)
    requires
        formats.len() > 0,
    ensures
        chosen == spec_surface_format(formats@, preferred),
        formats@.contains(chosen),
        formats@.contains(preferred) ==> chosen == preferred,
{
    proof {
        lemma_surface_format_choice(formats@, preferred);
    }
    let mut i: usize = 0;
    while i < formats.len()
        invariant
            i <= formats.len(),
            forall|k: int| 0 <= k < i ==> formats@[k] != preferred,
        decreases formats.len() - i,
    {
        let format = formats[i];
        if format.format == preferred.format && format.color_space == preferred.color_space {
            assert(formats@.contains(preferred) && formats@[i as int] == preferred);
            return preferred;
        }
        i = i + 1;
    }
    formats[0]
}

/// The preferred present mode if the surface offers it, else the fallback.
pub fn choose_present_mode(modes: &Vec<i32>, preferred: i32, fallback: i32) -> (chosen: i32)
    ensures
        chosen == spec_present_mode(modes@, preferred, fallback),
{
    let mut i: usize = 0;
    while i < modes.len()
        invariant
            i <= modes.len(),
            forall|k: int| 0 <= k < i ==> modes@[k] != preferred,
        decreases modes.len() - i,
    {
        if modes[i] == preferred {
            assert(modes@[i as int] == preferred);
            return preferred;
        }
        i = i + 1;
    }
    fallback
}

fn clamp_u32(value: u32, low: u32, high: u32) -> (clamped: u32)
    requires
        low <= high,
    ensures
        clamped == clamp(value, low, high),
{
    if value < low {
        low
    } else if value > high {
        high
    } else {
        value
    }
}

/// The surface's extent when it fixes one; otherwise the window size clamped
/// to the surface's bounds.
pub fn choose_surface_extent(capabilities: &SurfaceCapabilities, width: u32, height: u32) -> (extent: Extent2D)
    requires
        extent_bounds_ordered(*capabilities),
    ensures
        extent == spec_surface_extent(*capabilities, width, height),
{
    if capabilities.current_extent.width != u32::MAX {
        capabilities.current_extent
    } else {
        Extent2D {
            width: clamp_u32(
                width,
                capabilities.min_image_extent.width,
                capabilities.max_image_extent.width,
            ),
            height: clamp_u32(
                height,
                capabilities.min_image_extent.height,
                capabilities.max_image_extent.height,
            ),
        }
    }
}

/// One image more than the surface's minimum, but no more than its maximum
/// when it has one.
pub fn choose_image_count(capabilities: &SurfaceCapabilities) -> (count: u32)
    requires
        capabilities.min_image_count < u32::MAX,
    ensures
        count == spec_image_count(*capabilities),
{
    let count = capabilities.min_image_count + 1;
    if capabilities.max_image_count != 0 && capabilities.max_image_count < count {
        capabilities.max_image_count
    } else {
        count
    }
}

/// The format, present mode, extent and image count of a swapchain for a
/// window of `width` x `height`.
pub fn configure_swapchain(
    capabilities: &SurfaceCapabilities,
    formats: &Vec<SurfaceFormat>,
    present_modes: &Vec<i32>,
    width: u32,
    height: u32,
    preferred_format: SurfaceFormat,
    preferred_present_mode: i32,
    fallback_present_mode: i32,
) -> (config: SwapchainConfig)
    requires
        formats.len() > 0,
        capabilities_usable(*capabilities),
    ensures
        config.surface_format == spec_surface_format(formats@, preferred_format),
        config.present_mode == spec_present_mode(
            present_modes@,
            preferred_present_mode,
            fallback_present_mode,
        ),
        config.extent == spec_surface_extent(*capabilities, width, height),
        config.image_count == spec_image_count(*capabilities),
{
    SwapchainConfig {
        surface_format: choose_surface_format(formats, preferred_format),
        present_mode: choose_present_mode(present_modes, preferred_present_mode, fallback_present_mode),
        extent: choose_surface_extent(capabilities, width, height),
        image_count: choose_image_count(capabilities),
    }
}

/// A chosen extent that the swapchain may pick lies within the surface's
/// bounds, and the image count is more than the minimum unless the maximum
/// forbids it.
pub proof fn lemma_swapchain_choice_within_bounds(
    capabilities: SurfaceCapabilities,
    width: u32,
    height: u32,
)
    requires
        capabilities_usable(capabilities),
    ensures
        extent_is_free(capabilities) ==> {
            let e = spec_surface_extent(capabilities, width, height);
            &&& capabilities.min_image_extent.width <= e.width <= capabilities.max_image_extent.width
            &&& capabilities.min_image_extent.height <= e.height
                <= capabilities.max_image_extent.height
        },
        capabilities.max_image_count == 0 || capabilities.max_image_count
            > capabilities.min_image_count ==> spec_image_count(capabilities)
            > capabilities.min_image_count,
        capabilities.max_image_count != 0 ==> spec_image_count(capabilities)
            <= capabilities.max_image_count,
{
}


/// The chosen surface format is one the surface offers: the preferred format
/// and color space whenever the surface offers that pair, else its first format.
pub proof fn lemma_surface_format_choice(formats: Seq<SurfaceFormat>, preferred: SurfaceFormat)
    requires
        formats.len() > 0,
    ensures
        formats.contains(spec_surface_format(formats, preferred)),
        formats.contains(preferred) ==> spec_surface_format(formats, preferred) == preferred,
        !formats.contains(preferred) ==> spec_surface_format(formats, preferred) == formats[0],
        (exists|i: int| 0 <= i < formats.len() && formats[i].format == preferred.format
            && formats[i].color_space == preferred.color_space) ==> spec_surface_format(formats, preferred)
            == preferred,
{
    assert(formats[0] == formats[0]);
    if exists|i: int| 0 <= i < formats.len() && formats[i].format == preferred.format
        && formats[i].color_space == preferred.color_space {
        let i = choose|i: int| 0 <= i < formats.len() && formats[i].format == preferred.format
            && formats[i].color_space == preferred.color_space;
        assert(formats[i] == preferred);
    }
}
} // verus!
