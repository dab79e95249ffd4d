# voxelforge

The CPU-side logic of a wgpu voxel renderer, written in Verus with its
behaviour stated as contracts and proved.

## Layout

- `src/` — the verified library:
  - `allocation_stats` — per-frame allocation counters and a growth-tracking scratch vector.
  - `materials`, `mips` — procedural 16x16 material layers and their mip chains, with cut-out
    coverage kept exact across levels.
  - `noise` — lattice hashes and the blue-noise rank builder (the ranks always form a permutation).
  - `ivec`, `clipmap`, `upload`, `voxelize`, `gi` — the toroidal voxel GI clipmap, planning the
    texture writes of a voxel upload (every cell written exactly once, at its texel), voxel
    packing, and GI start-up and dispatch state.
  - `timing` — timestamp-query bookkeeping: written passes, readback ring, completed frames.
  - `preset`, `quality`, `views`, `clouds`, `bloom`, `gtao`, `atmosphere`, `depth_pyramid`,
    `chunk_slots`, `memory`, `readback` — render settings, debug views, schedules, target sizes,
    the chunk uniform-slot arena, saturating memory accounting and padded-row readback.
  - `shader_pack` — deciding a shader pack before any of it is published: the texture overrides
    are checked first, and a refused override refuses the whole pack; material-layer uploads.
  - `frame_plan` — the per-frame decisions: forward or deferred path, which render targets are
    recreated, when the effect graph is prepared, and how many GPU resources a frame creates.
  - `half`, `text` — half-float bit packing and text helpers.
- `tests/` — tests of the library on concrete values.
- `app/` — the wgpu, `f32` and environment glue: texture writes and readbacks, blue-noise energy,
  preset scaling, GI trace settings, the GPU side of pass timing.
