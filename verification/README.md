# yt_raymarch_2d

Signed-distance and 2D ray-marching demos built on the Bevy engine.

- `src/` is the verified library (Verus): reading the demo name out of the
  page's query string (`query`), choosing the demo by name (`examples`), the
  shape cycle and button behaviour of the shape-switching demos (`shapes`),
  and which distance formula a scene shape is measured with (`sdf`).
- `app/` is the program around it: the web entry point, the Bevy plugins,
  systems and shaders' materials, and all floating-point geometry.
- `tests/` runs the library on concrete inputs.
