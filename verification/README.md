# cargo-mercury

Generation of PureScript types and Argonaut JSON codecs from Rust type
definitions marked `#[mercury]`, with its logic verified by Verus.

## Layout

- `src/` — the verified library.
  - `types`, `analyzer`: the representation of Rust types and their mapping
    to PureScript types, with the PureScript text of a type.
  - `serde_attrs`: rename rules, case conversions and the reading of serde
    attributes.
  - `syntax`, `parser`: the plain syntax of items and the extraction of
    type definitions from it; `syn_access`: parsing with `syn` and reading
    its syntax tree, each node named by the source text and its position;
    `rust_source`: the walk of the tree into plain syntax;
    `source_laws`: reading a file depends on its text alone, apart from
    the debug text that syn gives for types that are not paths.
  - `codec_gen`: the `DecodeJson` / `EncodeJson` instances; `codegen`: the
    text of a module (header, imports, declarations and codecs).
  - `scanner`, `paths`: which files are scanned and how annotations are
    counted.
  - `order`, `sources`, `generation`, `plan`: the order of source files,
    module names, grouping by module, the type-to-module map and the plan of
    a generation run.
  - `text`, `unicode`: text primitives and the Unicode properties taken from
    the standard library.
- `tests/` — tests of the library.
- `app/` — the command-line program: argument handling, walking the
  workspace, reading and writing files.
