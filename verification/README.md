# vulkys

A rigid-body simulation drawn with Vulkan. The library in `src/` is
verified by Verus; the program in `app/` (the rapier physics, which is
floating point, the Vulkan and window calls, the interface and file I/O)
is ordinary Rust that nothing verifies.

## Layout

- `src/` — the verified library:
  - `data_structures/` — a FIFO queue and a stack, with their laws;
  - `merge_sort.rs`, `binary_search.rs` — sorting and searching;
  - `type_traits.rs` — a struct's name from its debug text;
  - `rigidbodies.rs`, `physics/` — body selections and kinds, collision
    participants, and the layout of the scene's index buffer;
  - `vulkan/` — device and queue-family choice, the window event loop's
    decisions, frame fences, the compute pass's check, and the context
    that holds the device, queue and allocators.
- `tests/` — tests of the library.
- `app/` — the program: the window, the Vulkan calls, the rapier
  simulation (floating point), the egui object picker and file I/O.
- `extras/shaders/` — the GLSL shaders. Compile each into
  `resources/shaders/<name>.spv` (for instance
  `glslc extras/shaders/scene.vert -o resources/shaders/scene.vert.spv`).
  The OBJ models `default_ball.obj`, `default_cylinder.obj` and
  `default_floor.obj` are read from `resources/`.

## Running

`vulkys` runs the built-in scene; `vulkys gui` opens the object picker,
which saves `objects.json`; `vulkys scene objects.json` runs those objects;
`vulkys hexagon` keeps a hexagon drawn in a window; `vulkys compute`,
`vulkys image`, `vulkys mandelbrot` and `vulkys triangle` run small GPU
programs. Press `p` to pause, `r` to resume and `q` to quit.
