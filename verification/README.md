# neptune_vulkan

Resource bookkeeping and render-graph compilation for a bindless Vulkan renderer,
written in Verus and verified against its contracts.

- `src/` is the verified library. It works on plain values: raw Vulkan enum and flag
  values, slot-map keys in their 64-bit FFI form, `f32` values as bit patterns.
  - `basic_render_graph_builder`: turns passes that name buffers and images by handle
    into a compiled graph with indices, a global memory barrier before each pass, image
    barriers from each image's previous access, and swapchain dependencies.
  - `render_graph`, `render_graph_builder`, `render_graph_builder_trait`: the graph's
    types and the builders of single passes and draw commands.
  - `render_graph_executor`: the executor's decisions — the frame state and its rotation,
    the acquisition of swapchain images (rebuilding when out of date), reuse of pooled
    Vulkan objects, where each buffer write lands and which buffers staged copies write,
    framebuffer extents, draw, copy and submission parameters, the semaphore behind each
    dependency and the source access of each barrier.
  - `id_pool`, `descriptor_set`, `descriptor_set_manager`: slots of the bindless
    descriptor arrays and the descriptor writes to commit.
  - `upload_queue`, `transfer_queue`, `resource_managers`, `resource_set`: queued copies,
    the slot-map keys of persistent resources and their deferred destruction.
  - `physical_device`, `instance`, `swapchain`, `pipeline`, `buffer`, `image`, `texture`,
    `sampler`, `device`: decoding device properties, choosing the device and queue family,
    and deriving create parameters (among them a raster pipeline's fixed state).
- `app/` makes the Vulkan calls with `ash` around the library: device queries, object
  pools and the start of a frame, swapchain image acquisition, command recording,
  pipeline and instance creation, the resources kept under the library's keys, and the
  callbacks of buffer writes and reads.
- `tests/` runs the library on concrete values.
