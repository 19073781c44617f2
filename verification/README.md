# roc_parse

A verified parser for the headers and bodies of Roc modules:

```
interface Foo.Bar
    exposes [ baz, Qux ]
    imports [ base.Task.{ Task, after }, Json.Decode ]
```

`module::header` parses the header of an interface, an app or a platform,
`module::module_name` the dotted name of a module, and `module::module_defs` the
definitions behind a header, up to the end of the input. What they build lives in
a `bumpalo` arena.

A header holds terms of other grammars: string literals, package names, entries
of a `packages` list, packages or paths, and types. `module::Terms` takes a
parser for each of them, and `module::module_defs` takes a parser for
definitions. Such a parser implements `state::Parser`: it says what it parses,
and that it only takes bytes off the front of its input.

## Layout

| module | holds |
| --- | --- |
| `state`, `region`, `problem` | where parsing stands, places in the source, and what can be wrong |
| `ast` | what a header is parsed into, and the views that contracts speak of |
| `combine` | how grammars are put together |
| `unicode`, `lex`, `ident`, `blankspace`, `collection` | characters, tokens, identifiers, blank space and bracketed lists |
| `grammar` | the grammar of headers and bodies |
| `module` | the parsers, each held to its production in `grammar` |
| `forward` | parsing only goes forward |
| `names`, `wellnamed` | which texts are names, and that a header holds only such |
| `steady` | what is parsed does not depend on the column that it starts in |
| `places` | the parts of a header stand in the order of the source |
| `laws` | what else holds of headers and bodies as a whole |
| `arena` | the operations of `bumpalo` that are taken on trust |
