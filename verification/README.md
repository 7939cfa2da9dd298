# rink

A terminal reader for FictionBook 2 (`.fb2`, or `.zip` holding one) books,
whose logic is a library verified with Verus.

- `src/` — the verified library
  - `text` — character-sequence utilities (trimming, splitting, searching, numbers)
  - `fb2_parser`, `fb2_builder` — the book model, the XML events of a text,
    the reader's state as plain values, and the verified transition for each
    XML event
  - `fb2_source` — from file bytes to a book: archive entry, declared encoding,
    decoding
  - `layout` — wrapping and justifying the text into screen lines, table of contents
  - `book` — search, loading a book, naming a downloaded file
  - `library` — book entries, bookmarks, settings, sorting and filtering the book list
  - `reader` — the interface state and its response to every key
  - `view` — list windows, reading progress, styled pieces of a line (search
    matches cut from the line at the byte positions found in its lowercased form)
  - `popups` — the rows of the settings menu, the book information and the table of contents
  - `i18n` — interface strings in Russian and English
- `tests/` — tests of the library
- `app/` — the terminal program: files, downloads, drawing, the event loop
