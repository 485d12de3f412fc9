# easy-shader-runner

Runs a shader in a window, with a user interface over it and, where wanted, a compute shader
beside it.

- `src/` decides: which layouts, buffers, bind groups and pipelines are to be created, and which
  steps make up a frame or a dispatch. Verus proves the contracts there; what is taken from other
  crates on trust is said where they are called.
  - `features`, `flags`, `label`, `single`: what a pass is built for, flag bits, numbered labels,
    single-precision numbers by their bit patterns.
  - `bind_group`, `spirv`, `pipeline`: what is created once.
  - `setup`: in which order it is created, and when the controller gets its buffers.
  - `dispatch`: how many workgroups a dispatch takes.
  - `command`, `render_pass`: the steps, and the render pass that lists them.
  - `controller`: what a user implements.
  - `laws`: what holds of all of this together.
  - `outside`: types of other crates that are only carried.
- `app/` carries the decisions out on the graphics device, and does the floating-point arithmetic
  on the area that the user interface leaves free.
- `tests/` runs the library on concrete values.
