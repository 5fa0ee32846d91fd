# lyxcat

Views the text of LyX (`.lyx`) documents: paragraphs and layouts, special
characters, inline formatting, and note and footnote markers.

The library in `src/` is verified with Verus:

- `text`: whitespace, trimming, substring search, decimal numerals.
- `layout`, `inset`: the layouts and insets a line can announce.
- `special`: the table of special-character names and their plain-text form.
- `paragraph`: cleaning a paragraph (special characters replaced, `\inset ...}`
  formatting removed).
- `document`: the meaning of each line, as spec functions, and the laws that
  hold of it.
- `converter`: the reader that takes a document line by line.

`app/main.rs` is the command-line viewer: `lyxcat <file.lyx>`.
