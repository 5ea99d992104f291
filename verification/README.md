# Lili Modeler core

The core of a lightweight 3D modeler, written in Verus. The functions in
`src/` carry contracts that Verus proves, except a few small trusted
wrappers around outside calls (base64 decoding, UTF-8 decoding, collecting
characters into a `String`, uuid generation and the glTF parser), whose
contracts state what those calls are documented to do.

- `src/mesh`: indexed polygon meshes (`Mesh`), the half-edge editing mesh
  (`BMesh`) with its id pools, mesh edits (join, separate, triangulate) and
  the face lists of the primitive shapes. Floating-point attributes live in
  generic slots filled by a geometry trait.
- `src/io`: binary STL writing and reading, the GLB container and the
  glTF document of an export, OBJ text writing and reading, and glTF mesh
  reading, all on bytes and characters. Numbers that are floats in the
  program cross as bit patterns or as the words that format them.
- `src/text.rs`: numbers written as decimal digits.
- `src/engine`: the undo history, node trees, modifier stacks, scene
  collections and the editor's settings enums.
- `app/`: the command-line program around the library: floating-point
  geometry (glam), file I/O, the renderer, physics, sculpting and animation
  evaluation.
- `tests/`: tests of the library.
