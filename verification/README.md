# math_render

Layout of mathematical formulas after the OpenType MATH model, with a parser for
presentation MathML, verified with Verus.

## Layout

- The library lives in `src/`. Verus verifies every function there but the few small
  `external_body` ones that call quick-xml, stash and std, whose contracts it takes as
  given.
- `src/types.rs`: the expression tree (`MathExpression`, `MathItem`, fields, lengths,
  styles).
- `src/math_box.rs`: the boxes layout produces and their metrics.
- `src/shaper.rs`: the `MathShaper` trait a font implements, and the stretching of glyphs
  (variant selection and glyph assemblies).
- `src/layout.rs`, `src/multiscripts.rs`, `src/stretchy.rs`, `src/typesetting.rs`: layout
  of each kind of item; `src/layout_model.rs` states what layout gives for every
  expression, as a relation between expression, options and box, and
  `src/layout_unique.rs` proves that this relation allows one box only (up to how vectors
  of boxes are represented), with the laws that follow from it.
- `src/drawing.rs`: the geometry a renderer draws for a box.
- `src/mathmlparser/`: the MathML parser: XML events to expressions, token attributes,
  lengths, character references, the operator dictionary and operator processing;
  `parse_model.rs` states what the parser builds from the events of a document.
- `app/`: the `mathimg` command line program: font discovery with fontconfig, a
  `MathShaper` for HarfBuzz fonts, and SVG output with glyph outlines from FreeType.
- `tests/`: tests of the library.
