# gswt

The verified core of a viewer for Gaussian-splatting scenes that are tiled with Wang tiles and moved
by shared motion bases.

- `src/` is the library, written in Verus. It reads scene archives, PLY and splat files, basis-bank
  metadata and payloads, motion graphs, Catmull-Rom motion in PyTorch archives and deformation
  networks; it plays motion graphs, keeps the edits of bases and knots, plans what is uploaded to and
  drawn by the GPU, and decides what the panels show. Every function states what it returns, and
  Verus proves it of all but ten: the wrappers named below, whose contracts are believed.
- `tests/` runs the library on concrete values.
- `app/` is ordinary Rust around it: the windows, the GPU, files, JSON, and arithmetic on
  floating-point numbers.

Single-precision numbers are held in `src/` as their IEEE 754 bit patterns. Comparing, ordering,
clamping and packing them is verified on the patterns; sums and products of them are computed in
`app/` and handed in.

A scene archive has to be complete. Where it holds motion, it holds the metadata, exactly one basis
bank, that of LoD 0, and one coefficient file for every tile of every LoD; anything less is refused,
and so is dense per-splat motion, which only the bundles of `scene_files` may hold.

Calls that Verus does not read stand behind small wrappers: `regex` in `name_match`, `zip` in
`zip_file`, with `anyhow` for the texts of its errors, `num-format` in `gui_labels`, and three
functions of the standard library in `ordering`, `pickle` and `text`.
