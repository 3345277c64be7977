# mmast_sim

Verified core of the MMAST multi-vehicle energy and signature simulator.

The simulator's physics (atmosphere, ocean and space models, vehicle
mobility, the MMAST surface modules, the solver and the reports) is
floating-point code. The library in `src/` holds the integer logic those
layers are built on, each function with a contract proved by Verus:

- `mesh`: triangle topology of the procedural meshes (terrain grids, boxes,
  wings, cylinders), generic over the vertex payload, with proofs that every
  index names a vertex and of the triangle counts;
- `scene`: the parts of the terrain and of the simplified vehicles, with
  their vertices in exact units (box corners, cylinder rim points, terrain
  grid points), dimensions and colours;
- `layout`, `atmosphere_lut`, `mmast_lut`, `envelope`: row-major layout of the
  lookup tables and of the 4D mission envelope, table filling, corner
  gathering, nearest-neighbour lookup, slicing, grid enumeration and cell storage;
- `render_stats`: per-frame draw statistics;
- `energy`: the per-module accumulator ledger and its laws, and per-module
  value columns;
- `viewer_input`: the viewer's key bindings;
- `presets`, `medium`, `geometry`, `mesh_adapter`, `terrain_scatter`:
  preset selection, shared enums, errors, mesh counts and the scatter hash.

`app/` is the command-line program and the floating-point simulation around
the library; `tests/` exercises the library on concrete values.
