# qcdesigner

The verified core of a desktop designer for quantum circuit diagrams.

`src/` is a Verus library. Every function in it carries a contract that
Verus proves, except the two calls into the LaTeX converter crate
(`tex2typst_rs`), whose contracts are assumed: `latex::convert_tex` (the
converter) and `tex_tokens::tokenize_tex` (its tokenizer). Both say only that
the outcome depends on the input text alone. The converter's parser panics on
a few token patterns; `tex_tokens` decides, over the tokenizer's tokens,
whether the parser may reach one of them, and `convert_tex` requires that it
may not.

- `circuit` — the circuit grid: placing, finding, selecting and removing
  gates, the row count, and what each grid cell shows. No two gates share a
  cell, and gate identities stay distinct.
- `gate`, `gate_id`, `gate_type`, `coordinate` — gates, their identities,
  kinds and grid positions.
- `svg_store`, `assets` — the content-addressed store of generated SVGs and
  the asset lookup built on it.
- `latex` — LaTeX to Typst document source, and locating the dimensions in
  the SVG that Typst emits.
- `tex_tokens` — the converter's tokens, and the patterns on which its parser
  panics.
- `text` — decimal and hexadecimal rendering, and integer parsing.
- `app_settings` — the colour theme.

`app/` is the GPUI front end: windows, views, drawing, the Typst compiler
and everything that works with floating-point sizes.
