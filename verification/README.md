# rlviser

A visualizer for a Rocket League simulation, with its logic verified in Verus.

- `src/` is the verified library: the little-endian wire formats of game states and render
  messages (with round-trip laws), the render groups, the handling of incoming game states
  (stale-state refusal, interpolation, one frame's updates taken in order), the settings
  file, state setting, camera and car choice, the `.pskx` mesh reader, and the choice of the
  field's meshes, materials and file paths. Every public function has a contract over spec
  functions and views; the laws stand as public proof functions beside the functions they
  speak of.
- `tests/` runs the library on concrete values.
- `app/` is a headless viewer around the library: it reads the settings file, talks to the
  simulation over UDP on two threads, keeps the game states and render groups, and prints the
  game clock. Floating-point arithmetic (the mean packet interval, float settings) stays there.

Floats travel through the library as their bits (`F32Bits`).
