# liteparse_ooxml

A reader for office documents: presentations (slides, shapes, text, the
formatting and geometry that each inherits), the numbering and run formatting of
word-processing documents, and what drawing them takes (colours, fills, lines,
fonts, pages). The library is written in Verus, and each function states what it
gives back.

- `src/xml` reads XML: events, tags, elements, and attributes that may be wrong.
- `src/opc` reads packages: the archive, paths and relationships.
- `src/model` and `src/dml` hold what a drawing is made of.
- `src/docx` reads numbering definitions and run formatting.
- `src/pptx` reads presentations. `cascade` and `textcascade` say what a shape
  and its text inherit; `geometry`, `upright` and `turning` where shapes in
  groups stand and how they are turned.
- `src/render` prepares what is drawn. `fonts` chooses faces and says why,
  `shape_geometry` scales outlines, `pages` numbers pages.
- `app` holds what works with floating-point numbers, files and the fonts of the
  host.
