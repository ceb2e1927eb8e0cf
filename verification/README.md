# rust_libretro_proc

The logic behind the procedural macros of a libretro core framework, written in
Verus and verified:

- `#[derive(CoreOptions)]` with `#[options(...)]` and `#[categories(...)]`
  attributes: `src/options.rs` and `src/categories.rs` read the attributes'
  tokens the way `syn` reads them (first error wins, tokens left unread in a
  group are reported afterwards): `parse` reads the parenthesized list and
  leaves what follows to the caller, `parse_attribute` reads a whole attribute;
  `src/tokens.rs` and `src/literal.rs` decode the string literals through
  `syn`, and state their values (escapes resolved), for the texts that are
  well-formed string literals; `src/derive.rs` selects the attributes and
  collects what they declare; `src/tables.rs` computes the C strings and arrays
  of the emitted option definitions, variables and categories, each table
  ending with its all-null terminating entry.
- `#[unstable(...)]`: `src/unstable.rs` decides the guarding feature and the
  documentation.
- `#[context(...)]`: `src/context.rs` decides which parameters and attributes
  the generated method keeps and which arguments it forwards.
- `src/laws.rs` proves properties across these functions, such as that options
  written in the documented syntax are read back exactly as written.

`app/` converts `proc_macro2`/`syn` values into the library's token model and
renders the library's results with `quote`.
