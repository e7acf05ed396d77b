# raytrace_core

The decision logic of a set of Vulkan ray tracing programs, verified with
Verus, and the programs around it.

`src/` is the verified library:

- `alignment`, `sbt`: shader binding table layout (sizes rounded to the base
  alignment) and the bytes of the table;
- `pipeline_groups`: the stages and shader groups of a ray tracing pipeline;
- `device_select`: device suitability, queue family choice, required
  extensions (their names come from `ash`);
- `swapchain_config`, `memory_type`, `shader_code`: swapchain choices,
  memory type search, SPIR-V words in either byte order;
- `accumulation`, `frame_loop`: the progressive renderer's state machine and
  the window's frame pacing;
- `scene_layout`, `bindless`: texture numbering, translucency, instance
  records and triangle order of loaded scenes, bindless descriptor sets;
- `refcount`, `debug_labels`, `objects`: shared-handle counting and the order
  in which a handle's last release frees it and lets go of its parents,
  validation message tags, groups of GPU objects.

`tests/` runs the library on concrete values. `app/` holds the programs: the
CPU path tracer (`toy-cpu`), a window ray tracing one triangle (`hello`), a glTF loader (`glb <file>...`) and a window
showing the GPU renderer; they make the Vulkan, file and window calls and
hand the library plain values.
