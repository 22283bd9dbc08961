# tsc

The bridge between a language server and the TypeScript compiler that runs beside it: requests of
the client become requests of the compiler, and what the compiler replies becomes what the client
is answered.

- `src/` is the library. Its behaviour is stated in contracts and proved by Verus.
  - `specifier`, `specifier_map` and `normalize`: modules, the names under which the compiler knows
    them, and the way back.
  - `text` and `span`: lines, offsets and spans, in UTF-8 and in UTF-16.
  - `strings`, `patterns` and `links`, `display`: the texts that are shown, and the links in them.
  - `navigation`, `locations`, `document_span`, `edits`, `refactor`, `hierarchy`, `outlining`,
    `signature`, `semantic_tokens`, `completion`: one module for each sort of reply.
  - `config` and `preferences`: the settings that requests are made with.
  - `server`: the requests, and what is made of their replies.
  - `state`, `script_names`, `requests` and `assets`: what the compiler asks of its host, and how
    its thread runs.
- `tests/` runs the library on concrete values.
- `app/` is the ordinary Rust around it: threads, channels, JSON and the types of the protocol.

The functions marked `external_body`, the `assume_specification` items and the spec functions
without a body are what is believed without proof: calls of `regex`, `url`, `deno_ast`, `dashmap`,
`text_size` and a few functions of `std`, each with what is claimed of it.
