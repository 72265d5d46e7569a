# roadkill

Loaders for BRender binary resource files (models, materials, pixelmaps),
as used by Carmageddon, with their behaviour proved by Verus.

A resource file is a sequence of chunks: a big-endian 32-bit chunk type and
size, then a payload whose layout the type fixes. Loaders read chunks until an
END chunk, building the resource on a loading stack.

Layout:

- `src/support/brender/stream.rs`: the byte stream, big-endian and
  zero-terminated string reading, and the outcome type `Parse` that every
  reader's specification is stated in.
- `src/support/brender/resource.rs`: the `FromStream` trait, every chunk type
  and its reader, the `Chunk` reader, the resource stack, the generic chunk
  loader and `LoadMany`, with the laws that reading is unaffected by what
  follows or precedes a resource, and that the size field of a chunk header
  matters only for FILE_INFO chunks.
- `src/support/brender/{model,material,pixelmap}.rs`: the three resources,
  their loaders, the named tables, and the palette remapping of pixelmaps.
- `src/support/texture.rs`: the RGB pixels of a pixelmap and the PNG image
  encoded from them.
- `app/`: reading and writing files, float conversions, and bevy meshes,
  images and materials.
- `tests/`: tests on concrete files.
