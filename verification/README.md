# fp_bindgen

Generates the Rust code by which a WebAssembly plugin talks to its host:

- `types.rs`, with the definitions of the types that cross the boundary;
- `functions.rs`, with functions that call the host and the `fp_export!` macro that exports
  functions to it;
- the runtime that both rest on, and a `mod.rs` that holds the modules together.

The library under `src/` is written in Verus. It generates the files as values, and its contracts
state the text of each, character by character. `app/` writes them to disk.

| Module | Content |
| --- | --- |
| `types`, `functions` | the protocol: types and functions that cross the boundary |
| `order`, `keys` | sets that list their members in ascending order, and the keys they sort by |
| `text`, `formatting` | joined text, and types written as Rust code |
| `type_bindings`, `function_bindings`, `bindings` | the generated files |
| `files` | a file to be written |
| `laws` | what holds of the bindings as a whole |

Definitions are listed by kind (aliases, enums, structs) and then by name, whatever the order in
which the types were added. An enum's variants hold nothing, a tuple or a struct;
`find_unsupported_variant` finds what does not keep to that.
