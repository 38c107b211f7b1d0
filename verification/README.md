# firefly_static_parser

An offline parser for IL2CPP-derived game builds whose metadata tables and strings are
obfuscated. From `GameAssembly.dll`, `global-metadata.dat` and `startup-metadata.dat`
it produces a C#-like type dump (`dump.cs`) and a map from method signatures to RVAs
(`methods.json`).

The library under `src/` is written in Verus: every decoder is specified over the byte
sequences it reads, and Verus proves the code against those specifications.

- `bytes`, `keys`: range-checked little-endian reads and the per-entry keys that
  obfuscate table fields.
- `pe_image`: PE headers, RVA-to-offset mapping, byte-pattern and RIP-relative scans.
- `static_layout`: discovery of the metadata globals and of the embedded header that
  locates every metadata table.
- `strings`: decryption of the string payload (with a proof that decoding gives back a
  stored string).
- `layout_model`: images, type definitions, fields, methods and type names. Enum
  constants are read through a field default value table that the caller supplies
  (`set_field_default_value_table`); the game files give no location for one, so the
  program lists enums without their values.
- `type_keys`: discovery of the keys of a type table's base type words from the table
  itself.
- `layout_output`, `method_map`: `dump.cs` rendering and the sorted method map of
  `methods.json`.
- `layout_parser`: a preview of the first entries of each metadata section.
- `metadata`, `obfuscated`, `args`, `il2cpp_pe`, `output`: format recognition and the
  decisions of the standard-metadata path.

`app/main.rs` is the command-line program: it finds and reads the files, drives the
library (and `il2cpp_dumper` for standard metadata) and writes the outputs.

Usage:

```
firefly-static-parser [GameAssembly.dll] [global-metadata.dat] [output-dir] [startup-metadata.dat]
```

Missing arguments default to files in the current or parent directory and to
`static-output`.
