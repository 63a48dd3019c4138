# ts_native

A TypeScript-to-native compiler whose decisions are verified with Verus.

- `src/` is the verified library: the tokenizer and parser of the small
  front end (`ts_parser`, `parse_model`), the source syntax tree and its
  lowering to the back end's IR (`ast`, `lower_model`, `swc_transform`),
  the call planner and the step list the back end emits for each function
  (`lowering`, `emit`), the string pool and property keys (`codegen`), the
  NaN-boxed runtime values (`runtime`), the PE image writer (`pe_builder`),
  the plugin registry and configuration (`extension`, `config`), linker
  argument lists (`linker`), the command line (`cli`), the quick header
  scan (`outline`) and the syntax check (`syntax_check`). `laws` states
  the properties that span several functions.
- `app/` is the program around it: it reads files and the environment,
  parses TypeScript with swc and copies the tree into the library's types,
  replays the emitted steps on Cranelift, and runs the system linker.
- `tests/` runs the library on concrete inputs.
