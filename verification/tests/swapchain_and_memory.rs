use raytrace_core::memory_type::find_memory_type_index;
use raytrace_core::shader_code::{shader_code_readable_bytes, shader_code_words};
use raytrace_core::swapchain_config::{
    choose_image_count, choose_present_mode, choose_surface_extent, choose_surface_format,
    configure_swapchain, Extent2D, SurfaceCapabilities, SurfaceFormat,
};

const B8G8R8A8_SRGB: i32 = 50;
const R8G8B8A8_UNORM: i32 = 37;
const SRGB_NONLINEAR: i32 = 0;
const MAILBOX: i32 = 1;
const FIFO: i32 = 2;
const IMMEDIATE: i32 = 0;

fn caps(current: Extent2D, min_count: u32, max_count: u32) -> SurfaceCapabilities {
    SurfaceCapabilities {
        min_image_count: min_count,
        max_image_count: max_count,
        current_extent: current,
        min_image_extent: Extent2D { width: 16, height: 16 },
        max_image_extent: Extent2D { width: 1920, height: 1080 },
    }
}

#[test]
fn surface_format_prefers_srgb() {
    let preferred = SurfaceFormat { format: B8G8R8A8_SRGB, color_space: SRGB_NONLINEAR };
    let other = SurfaceFormat { format: R8G8B8A8_UNORM, color_space: SRGB_NONLINEAR };
    assert!(choose_surface_format(&vec![other, preferred], preferred) == preferred);
    assert!(choose_surface_format(&vec![other], preferred) == other);
    let wrong_space = SurfaceFormat { format: B8G8R8A8_SRGB, color_space: 1000104001 };
    assert!(choose_surface_format(&vec![wrong_space, other], preferred) == wrong_space);
}

#[test]
fn present_mode_falls_back_to_fifo() {
    assert_eq!(choose_present_mode(&vec![FIFO, MAILBOX], MAILBOX, FIFO), MAILBOX);
    assert_eq!(choose_present_mode(&vec![IMMEDIATE, FIFO], MAILBOX, FIFO), FIFO);
    assert_eq!(choose_present_mode(&vec![], MAILBOX, FIFO), FIFO);
}

#[test]
fn extent_follows_surface_or_clamps_window() {
    let fixed = caps(Extent2D { width: 800, height: 600 }, 2, 3);
    assert!(choose_surface_extent(&fixed, 1000, 1000) == Extent2D { width: 800, height: 600 });
    let free = caps(Extent2D { width: u32::MAX, height: u32::MAX }, 2, 3);
    assert!(choose_surface_extent(&free, 4000, 8) == Extent2D { width: 1920, height: 16 });
    assert!(choose_surface_extent(&free, 640, 480) == Extent2D { width: 640, height: 480 });
}

#[test]
fn image_count_is_one_more_than_minimum_within_maximum() {
    let c = |min, max| caps(Extent2D { width: 1, height: 1 }, min, max);
    assert_eq!(choose_image_count(&c(2, 0)), 3);
    assert_eq!(choose_image_count(&c(2, 8)), 3);
    assert_eq!(choose_image_count(&c(3, 3)), 3);
}

#[test]
fn configure_swapchain_combines_choices() {
    let preferred = SurfaceFormat { format: B8G8R8A8_SRGB, color_space: SRGB_NONLINEAR };
    let config = configure_swapchain(
        &caps(Extent2D { width: u32::MAX, height: u32::MAX }, 1, 0),
        &vec![preferred],
        &vec![FIFO],
        800,
        600,
        preferred,
        MAILBOX,
        FIFO,
    );
    assert!(config.surface_format == preferred);
    assert_eq!(config.present_mode, FIFO);
    assert!(config.extent == Extent2D { width: 800, height: 600 });
    assert_eq!(config.image_count, 2);
}

#[test]
fn memory_type_first_allowed_with_properties() {
    const DEVICE_LOCAL: u32 = 0x1;
    const HOST_VISIBLE: u32 = 0x2;
    let flags = vec![HOST_VISIBLE, DEVICE_LOCAL, DEVICE_LOCAL | HOST_VISIBLE, DEVICE_LOCAL];
    assert_eq!(find_memory_type_index(0b1111, &flags, DEVICE_LOCAL), Some(1));
    assert_eq!(find_memory_type_index(0b1100, &flags, DEVICE_LOCAL), Some(2));
    assert_eq!(find_memory_type_index(0b0001, &flags, DEVICE_LOCAL), None);
    assert_eq!(find_memory_type_index(0b1111, &flags, DEVICE_LOCAL | HOST_VISIBLE), Some(2));
    assert_eq!(find_memory_type_index(0b1111, &vec![], 0), None);
}

#[test]
fn shader_words_in_both_byte_orders() {
    let little = vec![0x03, 0x02, 0x23, 0x07, 0x00, 0x00, 0x01, 0x00, 0xAA];
    assert_eq!(shader_code_words(&little), vec![0x0723_0203, 0x0001_0000]);
    let big = vec![0x07, 0x23, 0x02, 0x03, 0x00, 0x01, 0x00, 0x00];
    assert_eq!(shader_code_words(&big), vec![0x0723_0203, 0x0001_0000]);
    assert_eq!(shader_code_words(&vec![0x03, 0x02]), Vec::<u32>::new());
}

#[test]
fn shader_code_byte_order_is_recognised() {
    assert!(shader_code_readable_bytes(&vec![0x03, 0x02, 0x23, 0x07]));
    assert!(shader_code_readable_bytes(&vec![0x07, 0x23, 0x02, 0x03]));
    assert!(!shader_code_readable_bytes(&vec![0x05, 0x02, 0x23, 0x07]));
    assert!(!shader_code_readable_bytes(&Vec::new()));
}
