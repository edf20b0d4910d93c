# yunnwi_terrain

Terrain worldgen for a Freven Wasm mod, split in two:

- `src/` — the verified library (Verus): the local 32×96×32 column buffer
  (`world`), structures (`structures`), cave masks (`caves`), surface
  materials and slope (`geology`), house and tree placement (`placement`),
  spawn candidate rules (`spawn`), compression of the finished column into
  vertical runs (`runs`), and the whole column from precomputed samples to
  runs (`generation`).
- `app/` — the mod around it: floating-point noise sampling (climate, biomes,
  rivers, terrain height, cave noise verdicts, spawn scoring), block
  registration and the worldgen handler built on the Freven guest SDK. It
  expects a `noise` module (hash and gradient noise, plus the sand, gravel and
  snow block keys) and the `freven_world_guest_sdk` and
  `freven_volumetric_api` crates.
- `tests/` — tests of the library.
