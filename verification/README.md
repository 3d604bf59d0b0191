# hypertext

Type-checked HTML templates in Maud or rsx syntax.

The library (`src/`) holds, verified:

- the runtime: `Buffer`, `Raw`, `Rendered` and the `Renderable` trait with
  its implementations for strings, characters, integers, booleans,
  containers and tuples, and the HTML escaping they apply (`escape`);
- the template compiler: the tokens of a template (`tokens`) are read in
  Maud or rsx syntax (`parse`, with the grammar stated in
  `parse::grammar`), and the parsed template (`node`) is turned into static
  text and dynamic statements, with the checks that each element and
  attribute exists (`generate`, `compile`);
- the rules of `#[component]` (`component`) and of the derives
  (`derive`), and the unindenting of multi-line string literals
  (`unindent`).

`app/` is the macro front end: it converts `proc_macro2` tokens to the
library's tokens, prints the generated statements as Rust code, and reads
the Rust items the attribute and derive macros work on.
