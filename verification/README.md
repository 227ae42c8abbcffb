# zengpu_vulkan

The Vulkan backend of the ZenGPU runtime. Every decision of the backend is verified with Verus:
which adapter, queue family and memory type is chosen, what is created and with which
parameters, what is recorded into a command buffer, when a resource may be destroyed, and what
is undone when a call fails.

## Layout

- `src/` is the verified library. It makes no Vulkan call. A step that needs one takes the
  result of the call as an argument and says what comes next: a plan, commands to record, or
  objects to destroy.
  - `hal`, `vk`, `error`, `text`, `slot_map`, `search` hold values, errors and tables.
  - `instance`, `adapter`, `device` hold selection, resources, pipelines, dispatch, submission
    and teardown.
  - `command`, `command_list`, `frame_graph`, `layouts` hold recorded work and its order.
  - `swapchain`, `surface`, `offscreen`, `depth_target`, `quads`, `swapchain_2d`,
    `swapchain_textured`, `calls` hold what is rendered to and presented.
- `app/` performs the plans through `ash`: it makes the calls, hands the results back, and
  converts between Vulkan's types and the library's.
- `tests/` run the library on concrete values. `tests/device.rs` carries the plans out on a
  small simulated GPU.

## What is proved

Contracts say what each function returns and changes. On top of them stand public proof
functions, one per property: a destroyed handle stays dead and its slot is not reused while work
is in flight, what is written to a buffer is read back, memory for the GPU only is out of the
host's reach, every pass of a frame is recorded once, and after those it reads from unless they
wait for each other, images are in the layouts that commands name and hold what commands read, and
others. Each has its property in its doc comment.

What is taken on trust is marked `#[verifier::external_body]`: the text that `ash` gives to a
result code.
