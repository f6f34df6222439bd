# prism

The verified core of the Prism engine: timers, input handling and the user interface's
bookkeeping, the launcher's decisions, and the planning side of a Vulkan renderer and its
baking tools.

The library touches neither the device nor the window system. It takes plain values
(device objects are 64-bit handles, zero for none; floating-point values are bit patterns)
and answers with what is to be done: a list of steps or commands, or one step at a time
from a state machine that is told how the step before went. Every function states in its
contract what it answers, and Verus proves it. Properties that hold of several functions
together are public proof functions beside them.

- `src/` is the library, every item of it verified.
- `tests/` runs it on concrete values.
- `app/` is ordinary Rust around it: it carries out the steps of uploads, acceleration
  structures, compute pipelines, descriptor sets and single passes on the device (`vulkan`,
  `raytracing`, `compute`, `raster`, `descriptors`, `gtao`, `gizmo`, `forward`, `overlay`),
  loads scenes (`scene`), runs the baking tools (`bake_gi`, `bake_image`), talks to the
  window system (`platform`), the file system (`launcher`) and threads (`timers`), and holds
  the floating-point arithmetic (`gi_math`, `ui_math`).

The two renderers (`renderer`, `graph_renderer`), the Radiance images (`hdr`) and the asset
decoders (`asset_decoders`) have no counterpart in `app/`: a frame loop that owns the window
and the scene managers calls them.
