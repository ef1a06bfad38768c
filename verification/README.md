# svgr2

Turns SVG documents into React components, with the reading of SVG and the
building of the component proved correct with Verus.

## Layout

- `src/`: the verified library.
  - `events`, `lexer_spec`, `lexer`, `lexer_lemmas`, `parser`, `tree`, `error`,
    `laws`: an event-based SVG parser, specified step by step (`lex_next`,
    `lex_run`), a sink that builds a tree, and positions for diagnostics.
  - `options`, `json_options`, `validate`: transform options, their JSON form
    and the checks on the names they bind.
  - `names`, `decode`, `style`: SVG to React names, entity decoding and value
    normalisation, `style` attributes.
  - `jsx`, `attrs`, `passes`, `jsx_sink`, `dynamic`: the JSX element built from
    the SVG events, the attribute passes and the dynamic title and description.
  - `order`, `plan`, `exports`, `previous`, `printing`, `transform`: the layout
    of the generated module, the reading (with Oxc) and checking of
    `previousExport`, the JavaScript text of the module and its printing by Oxc,
    the optimisation with OXVG, and the entry points (`transform`,
    `print_combined`).
  - `transform_laws`, `convert_laws`: properties of the whole, among them that the
    JSX is the parse tree converted node by node.
- `app/`: the parts that deal with outside formats and floating point: JSON
  options (serde), which attribute and style values read as numbers and the
  literal for each, and the Oxc program read back from the module text.
- `tests/`: tests of the library.
