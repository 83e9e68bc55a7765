# car_game

A small top-down driving game rendered with `wgpu` in a `winit` window.

- `src/` is the verified library:
  - `object`: the `.vec` mesh format (centre, index list, vertices, all
    big-endian words), its well-formedness check and its decoder;
  - `buffers`: the byte images of the vertex and index buffers sent to the GPU,
    and the vertex and instance buffer layouts;
  - `controls`: the driving controls, key events and the moves they ask for.
- `app/` is the game itself: window, GPU setup, rendering, and the
  floating-point movement and camera code.
- `tests/` exercises the library on concrete inputs.

The driving controls are a struct with one field per action rather than a map
from names: the set of controls is fixed (forward, backward, left, right), the
game addresses them by position, and a struct lets every contract speak of
each control directly.
