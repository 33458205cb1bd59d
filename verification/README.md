# veac

A compiler for VEAC ("Video Editing as Code"), a small declarative language
for describing a video edit, into FFmpeg commands. The library is written in
Verus and proved against its contracts.

## Layout

- `src/` — the verified library:
  - `text`, `split`, `fixed`: characters, splitting and joining text, and
    exact decimal numbers (`Fixed`, billionths in an `i64`) used for every
    time and fractional setting.
  - `token`, `lexer`: tokens and the lexer, proved to follow the token
    grammar of `lexer`'s spec functions.
  - `ast`, `parser_spec`, `parser`: the syntax tree and a recursive descent
    parser proved to follow the grammar in `parser_spec`.
  - `error`: errors and their rustc-style rendering.
  - `ir`, `ir_kinds`, `semantic_spec`, `semantic`, `resolve_clip`,
    `resolve_items`: the validated program and semantic analysis, each
    resolver a fold over its block's attributes.
  - `filter_graph`, `filters`, `clips_spec`, `clips`, `overlays`,
    `ffmpeg_spec`, `ffmpeg`: the filter graph builder and FFmpeg command
    generation, each builder step stated as a change of the graph.
  - `pipeline`, `batch`, `progress`: the front end with rendered errors,
    merging of included files, stamping of probed audio, batch sources and
    progress-line values.
  - `laws`: properties of the library as a whole.
- `tests/` — tests of the library.
- `app/` — the `veac` command line: file and process I/O, CSV reading,
  FFmpeg and ffprobe invocation.
