use vstd::prelude::*;

pub mod alignment;
pub mod objects;
pub mod sbt;
pub mod pipeline_groups;
pub mod device_select;
pub mod swapchain_config;
pub mod memory_type;
pub mod shader_code;
pub mod accumulation;
pub mod frame_loop;
pub mod scene_layout;
pub mod refcount;
pub mod bindless;
pub mod debug_labels;
